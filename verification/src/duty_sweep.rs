use vstd::prelude::*;

verus! {

/// The percentage at which the sweep starts and turns downward.
pub const SWEEP_TOP: u16 = 100;

/// Number of steps in one full sweep: down from the top to zero and back.
pub open spec fn sweep_period() -> int {
    2 * SWEEP_TOP
}

/// The sweep states that the firmware passes through: a falling sweep
/// never sits at zero and a rising one never at the top.
pub open spec fn sweep_wf(s: (int, bool)) -> bool {
    &&& 0 <= s.0 <= SWEEP_TOP
    &&& s.1 ==> s.0 < SWEEP_TOP
    &&& !s.1 ==> s.0 > 0
}

/// One step of the sweep: the percentage moves by one in the current
/// direction, and the direction flips once it reaches zero or the top.
pub open spec fn sweep_next(s: (int, bool)) -> (int, bool) {
    let p = if s.1 { s.0 + 1 } else { s.0 - 1 };
    let flip = p <= 0 || p >= SWEEP_TOP;
    (p, if flip { !s.1 } else { s.1 })
}

/// Position of a state within one period, counted from the start state.
pub open spec fn sweep_phase(s: (int, bool)) -> int {
    if s.1 {
        SWEEP_TOP + s.0
    } else {
        SWEEP_TOP - s.0
    }
}

/// The state at a given position of the period.
pub open spec fn sweep_at_phase(k: int) -> (int, bool) {
    if k < SWEEP_TOP {
        (SWEEP_TOP - k, false)
    } else {
        (k - SWEEP_TOP, true)
    }
}

/// The state after `n` steps from the start state.
pub open spec fn sweep_after(n: nat) -> (int, bool)
    decreases n,
{
    if n == 0 {
        (SWEEP_TOP as int, false)
    } else {
        sweep_next(sweep_after((n - 1) as nat))
    }
}

/// Duty for a percentage of a channel's maximum duty, computed as the
/// firmware does: the maximum is first divided by one hundred.
pub open spec fn percent_duty(max_duty: int, percent: int) -> int {
    (max_duty / 100) * percent
}

/// The percentage sweep that drives the duty of the advanced timer's
/// channels: starting at the full duty, it falls by one percent per step
/// to zero and rises back to the top, forever.
pub struct DutySweep {
    percent: u16,
    raise: bool,
}

impl View for DutySweep {
    type V = (int, bool);

    closed spec fn view(&self) -> (int, bool) {
        (self.percent as int, self.raise)
    }
}

impl DutySweep {
    #[verifier::type_invariant]
    spec fn inv(self) -> bool {
        sweep_wf(self@)
    }

    /// The start state: at the top, moving downward.
    pub fn new() -> (r: Self)
        ensures
            r@ == (SWEEP_TOP as int, false),
            sweep_wf(r@),
    {
        DutySweep { percent: SWEEP_TOP, raise: false }
    }

    /// The current percentage.
    pub fn percent(&self) -> (r: u16)
        ensures
            r as int == self@.0,
            r <= SWEEP_TOP,
    {
        proof {
            use_type_invariant(self);
        }
        self.percent
    }

    /// Whether the sweep is moving upward.
    pub fn is_raising(&self) -> (r: bool)
        ensures
            r == self@.1,
    {
        self.raise
    }

    /// The duty to write to every channel of the timer for the current
    /// percentage, given the channels' maximum duty.
    pub fn duty_for(&self, max_duty: u16) -> (r: u16)
        ensures
            r as int == percent_duty(max_duty as int, self@.0),
            r as int == (max_duty as int / 100) * self@.0,
            r <= max_duty,
    {
        proof {
            use_type_invariant(self);
        }
        let unit: u16 = max_duty / 100;
        proof {
            lemma_percent_duty_bounded(max_duty as int, self.percent as int);
        }
        unit * self.percent
    }

    /// One step of the sweep.
    pub fn advance(&mut self)
        ensures
            final(self)@ == sweep_next(old(self)@),
            sweep_wf(final(self)@),
    {
        proof {
            use_type_invariant(&*self);
        }
        let p: u16 = if self.raise {
            self.percent + 1
        } else {
            self.percent - 1
        };
        let flip = p <= 0 || p >= SWEEP_TOP;
        let r = if flip {
            !self.raise
        } else {
            self.raise
        };
        *self = DutySweep { percent: p, raise: r };
    }
}

proof fn lemma_percent_duty_bounded(max_duty: int, percent: int)
    requires
        0 <= max_duty,
        0 <= percent <= 100,
    ensures
        0 <= percent_duty(max_duty, percent) <= max_duty,
{
    let unit = max_duty / 100;
    assert(0 <= unit);
    assert(unit * percent <= unit * 100) by (nonlinear_arith)
        requires
            0 <= unit,
            percent <= 100,
    ;
    assert(unit * 100 <= max_duty) by (nonlinear_arith)
        requires
            unit == max_duty / 100,
            0 <= max_duty,
    ;
    assert(0 <= unit * percent) by (nonlinear_arith)
        requires
            0 <= unit,
            0 <= percent,
    ;
}

/// Every step moves the percentage by exactly one, down while falling and
/// up while rising, and the direction turns only on reaching zero or the
/// top.
pub proof fn lemma_sweep_moves_by_one(s: (int, bool))
    requires
        sweep_wf(s),
    ensures
        s.1 ==> sweep_next(s).0 == s.0 + 1,
        !s.1 ==> sweep_next(s).0 == s.0 - 1,
        sweep_next(s).1 != s.1 <==> (sweep_next(s).0 == 0 || sweep_next(s).0 == 100),
{
}

/// Every step keeps the sweep among the states the firmware passes
/// through, and moves it one position further along its period.
pub proof fn lemma_sweep_step(s: (int, bool))
    requires
        sweep_wf(s),
    ensures
        sweep_wf(sweep_next(s)),
        sweep_phase(sweep_next(s)) == (sweep_phase(s) + 1) % sweep_period(),
        0 <= sweep_phase(s) < sweep_period(),
        sweep_at_phase(sweep_phase(s)) == s,
{
    let k = sweep_phase(s);
    if k + 1 < sweep_period() {
        vstd::arithmetic::div_mod::lemma_small_mod((k + 1) as nat, 200);
    } else {
        vstd::arithmetic::div_mod::lemma_mod_self_0(200);
    }
}

/// After `n` steps from the start, the sweep is at position `n` modulo
/// the period: the percentage traces a triangle wave from the top down to
/// zero and back up, repeating every two hundred steps.
pub proof fn lemma_sweep_triangle(n: nat)
    ensures
        sweep_after(n) == sweep_at_phase(n as int % sweep_period()),
        sweep_wf(sweep_after(n)),
    decreases n,
{
    if n > 0 {
        lemma_sweep_triangle((n - 1) as nat);
        let prev = sweep_after((n - 1) as nat);
        lemma_sweep_step(prev);
        assert(sweep_phase(prev) == (n - 1) % sweep_period());
        assert(((n - 1) % 200 + 1) % 200 == n % 200) by (nonlinear_arith)
            requires
                n > 0,
        ;
        assert(sweep_at_phase(sweep_phase(sweep_next(prev))) == sweep_next(prev)) by {
            lemma_sweep_step(sweep_next(prev));
        }
    }
}

/// The sweep repeats itself every period.
pub proof fn lemma_sweep_periodic(n: nat)
    ensures
        sweep_after(n + 200) == sweep_after(n),
{
    lemma_sweep_triangle(n);
    lemma_sweep_triangle(n + 200);
    assert((n + 200) % 200 == n % 200) by (nonlinear_arith);
}

} // verus!
