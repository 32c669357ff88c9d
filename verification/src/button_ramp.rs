use vstd::prelude::*;

verus! {

/// Amount by which one button press moves the duty cycle.
pub const DUTY_STEP: u16 = 300;

/// The duty after one press and the direction the ramp takes next:
/// the duty moves one step in the current direction, is clamped to the
/// maximum (turning the ramp downward), and restarts at one step when it
/// reaches zero (turning the ramp upward).
pub open spec fn ramp_next(duty: int, max: int, raise: bool) -> (int, bool) {
    let moved = if raise { duty + DUTY_STEP } else { duty - DUTY_STEP };
    if moved >= max {
        (max, false)
    } else if moved <= 0 {
        (DUTY_STEP as int, true)
    } else {
        (moved, raise)
    }
}

/// Whether moving `duty` one step in the given direction leaves the
/// range of the 16-bit duty register.
pub open spec fn ramp_overflows(duty: int, raise: bool) -> bool {
    if raise {
        duty + DUTY_STEP > u16::MAX
    } else {
        duty < DUTY_STEP
    }
}

/// Direction state of the duty ramp driven by the user button: each press
/// moves the duty of the LED's PWM channel by one step up or down.
pub struct ButtonRamp {
    raise: bool,
}

impl ButtonRamp {
    /// Whether the ramp is currently moving the duty upward.
    pub closed spec fn raising(&self) -> bool {
        self.raise
    }

    /// A ramp that first moves downward, from the full duty set at start-up.
    pub fn new() -> (r: Self)
        ensures
            !r.raising(),
    {
        ButtonRamp { raise: false }
    }

    /// Whether the ramp is moving upward.
    pub fn is_raising(&self) -> (r: bool)
        ensures
            r == self.raising(),
    {
        self.raise
    }

    /// Whether a press with the current duty `duty` would leave the range
    /// of the 16-bit duty register.
    pub fn would_overflow(&self, duty: u16) -> (r: bool)
        ensures
            r == ramp_overflows(duty as int, self.raising()),
            self.raising() ==> (r <==> duty as int + 300 > 65535),
            !self.raising() ==> (r <==> duty < 300),
    {
        if self.raise {
            duty > u16::MAX - DUTY_STEP
        } else {
            duty < DUTY_STEP
        }
    }

    /// One press: the duty to write back, given the current duty and the
    /// channel's maximum duty, and the direction for the next press.
    pub fn press(&mut self, duty: u16, max_duty: u16) -> (r: u16)
        requires
            !ramp_overflows(duty as int, old(self).raising()),
        ensures
            (r as int, final(self).raising()) == ramp_next(
                duty as int,
                max_duty as int,
                old(self).raising(),
            ),
            old(self).raising() && duty + 300 < max_duty ==> r == duty + 300
                && final(self).raising(),
            old(self).raising() && duty + 300 >= max_duty ==> r == max_duty
                && !final(self).raising(),
            !old(self).raising() && duty - 300 >= max_duty ==> r == max_duty
                && !final(self).raising(),
            !old(self).raising() && 0 < duty - 300 < max_duty ==> r == duty - 300
                && !final(self).raising(),
            !old(self).raising() && duty == 300 && max_duty > 0 ==> r == 300
                && final(self).raising(),
    {
        let moved: u16 = if self.raise {
            duty + DUTY_STEP
        } else {
            duty - DUTY_STEP
        };
        if moved >= max_duty {
            self.raise = false;
            max_duty
        } else if moved <= 0 {
            self.raise = true;
            DUTY_STEP
        } else {
            moved
        }
    }

    /// The button's external interrupt: when its pending bit is set, the
    /// ramp takes one press and the new duty comes back to be written;
    /// otherwise nothing changes.
    pub fn on_exti(&mut self, pending: bool, duty: u16, max_duty: u16) -> (r: Option<u16>)
        requires
            pending ==> !ramp_overflows(duty as int, old(self).raising()),
        ensures
            !pending ==> r is None && final(self).raising() == old(self).raising(),
            pending ==> r is Some && (r->0 as int, final(self).raising()) == ramp_next(
                duty as int,
                max_duty as int,
                old(self).raising(),
            ),
    {
        if pending {
            Some(self.press(duty, max_duty))
        } else {
            None
        }
    }
}

/// Whether a press overflows depends only on the 16-bit arithmetic of
/// one step: moving down it underflows exactly below one step, and moving
/// up it overflows exactly when one more step passes 65535; any other duty,
/// whatever its remainder by the step, is safe.
pub proof fn lemma_overflow_is_exactly_out_of_range(duty: int)
    requires
        0 <= duty <= 65535,
    ensures
        ramp_overflows(duty, false) <==> duty < 300,
        ramp_overflows(duty, true) <==> duty > 65235,
{
}

/// What one press does, for every duty and maximum: while rising below the
/// maximum the duty grows by exactly one step and keeps rising; a step that
/// would reach or pass the maximum, in either direction, lands exactly on
/// the maximum and turns the ramp down; while falling above zero the duty
/// shrinks by exactly one step and keeps falling; and a fall to zero
/// restarts at one step, rising.
pub proof fn lemma_press_behaviour(duty: int, max: int)
    requires
        0 <= duty,
        0 < max,
    ensures
        duty + 300 < max ==> ramp_next(duty, max, true) == (duty + 300, true),
        duty + 300 >= max ==> ramp_next(duty, max, true) == (max, false),
        duty - 300 >= max ==> ramp_next(duty, max, false) == (max, false),
        0 < duty - 300 < max ==> ramp_next(duty, max, false) == (duty - 300, false),
        duty == 300 ==> ramp_next(duty, max, false) == (300int, true),
        ramp_next(duty, max, true).0 >= duty || ramp_next(duty, max, true).0 == max,
        ramp_next(duty, max, true).0 <= duty + 300,
{
}

/// While the channel's maximum duty is at least one step, a press from a
/// duty within range leaves the duty within range and never at zero.
pub proof fn lemma_ramp_stays_in_range(duty: int, max: int, raise: bool)
    requires
        DUTY_STEP <= max,
        0 <= duty <= max,
        !ramp_overflows(duty, raise),
    ensures
        0 < ramp_next(duty, max, raise).0 <= max,
{
}

/// The direction changes only at the two ends: turning downward happens
/// exactly when the duty was clamped to the maximum, and turning upward
/// exactly when it restarted at one step from zero.
pub proof fn lemma_ramp_turns_at_ends(duty: int, max: int, raise: bool)
    requires
        0 <= duty,
        DUTY_STEP < max,
        !ramp_overflows(duty, raise),
    ensures
        ramp_next(duty, max, raise).1 != raise ==> (if raise {
            ramp_next(duty, max, raise).0 == max
        } else {
            ramp_next(duty, max, raise).0 == DUTY_STEP
        }),
        ramp_next(duty, max, raise).0 == max ==> !ramp_next(duty, max, raise).1,
{
}

/// The duty and direction after `n` presses from the start state, where
/// the duty is full and the ramp moves downward.
pub open spec fn ramp_after(max: int, n: nat) -> (int, bool)
    decreases n,
{
    if n == 0 {
        (max, false)
    } else {
        let prev = ramp_after(max, (n - 1) as nat);
        ramp_next(prev.0, max, prev.1)
    }
}

/// The state after `j` presses, for a maximum of `k` steps, within one
/// round: down one step at a time to a single step, up again one step at a
/// time, and back to the full duty moving downward.
pub open spec fn ramp_round_state(k: int, j: int) -> (int, bool) {
    if j < k {
        (DUTY_STEP * (k - j), false)
    } else if j < 2 * k - 1 {
        (DUTY_STEP * (j - k + 1), true)
    } else {
        (DUTY_STEP * k, false)
    }
}

/// When the maximum duty is a whole number `k >= 2` of steps, the ramp
/// runs down to one step, restarts upward, and is back at the full duty
/// moving downward after exactly `2k - 1` presses, and not sooner; no
/// press on the way overflows the 16-bit duty.
pub proof fn lemma_ramp_round(k: int, j: nat)
    requires
        2 <= k,
        DUTY_STEP * k <= u16::MAX,
        j <= 2 * k - 1,
    ensures
        ramp_after(DUTY_STEP * k, j) == ramp_round_state(k, j as int),
        j < 2 * k - 1 ==> !ramp_overflows(
            ramp_after(DUTY_STEP * k, j).0,
            ramp_after(DUTY_STEP * k, j).1,
        ),
        0 < j < 2 * k - 1 ==> ramp_after(DUTY_STEP * k, j) != (DUTY_STEP * k, false),
        j == 2 * k - 1 ==> ramp_after(DUTY_STEP * k, j) == (DUTY_STEP * k, false),
    decreases j,
{
    if j > 0 {
        lemma_ramp_round(k, (j - 1) as nat);
    }
}

} // verus!
