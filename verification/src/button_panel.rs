use vstd::prelude::*;

verus! {

/// Time, in milliseconds, that the panel waits for a press to settle
/// before reading the button a second time.
pub const SETTLE_MS: u16 = 10;

/// Where the panel's polling loop stands.
#[derive(PartialEq, Eq, Structural, Clone, Copy, Debug)]
pub enum PanelPhase {
    /// About to take a fresh reading of the button.
    Sample,
    /// The button read high; the next reading, after the settle time,
    /// decides whether this is a press.
    Confirm,
    /// A press toggled the green LED; waiting for the button to be released.
    WaitRelease,
}

/// What the panel asks its caller to do with a reading.
#[derive(PartialEq, Eq, Structural, Clone, Copy, Debug)]
pub enum PanelAction {
    /// Drive the red LED low.
    RedOff,
    /// Drive the red LED high, then wait the settle time.
    RedOnThenSettle,
    /// Toggle the green LED.
    ToggleGreen,
    /// Nothing to do; read the button again.
    Nothing,
}

/// One reading of the button, from a phase: the next phase and the action.
/// The red LED mirrors each fresh reading; a high reading that is still
/// high after the settle time toggles the green LED once, and the panel
/// then waits until the button is released.
pub open spec fn panel_next(phase: PanelPhase, high: bool) -> (PanelPhase, PanelAction) {
    match phase {
        PanelPhase::Sample => if high {
            (PanelPhase::Confirm, PanelAction::RedOnThenSettle)
        } else {
            (PanelPhase::Sample, PanelAction::RedOff)
        },
        PanelPhase::Confirm => if high {
            (PanelPhase::WaitRelease, PanelAction::ToggleGreen)
        } else {
            (PanelPhase::Sample, PanelAction::Nothing)
        },
        PanelPhase::WaitRelease => if high {
            (PanelPhase::WaitRelease, PanelAction::Nothing)
        } else {
            (PanelPhase::Sample, PanelAction::Nothing)
        },
    }
}

/// The phase after a run of readings from a given phase.
pub open spec fn phase_after(start: PanelPhase, readings: Seq<bool>) -> PanelPhase
    decreases readings.len(),
{
    if readings.len() == 0 {
        start
    } else {
        panel_next(phase_after(start, readings.drop_last()), readings.last()).0
    }
}

/// The action taken on the `i`-th reading of a run from a given phase.
pub open spec fn action_at(start: PanelPhase, readings: Seq<bool>, i: int) -> PanelAction {
    panel_next(phase_after(start, readings.take(i)), readings[i]).1
}

/// The polling loop that reads the user button, mirrors it on the red LED
/// and toggles the green LED once per debounced press.
pub struct ButtonPanel {
    phase: PanelPhase,
}

impl ButtonPanel {
    /// The phase the loop is in.
    pub closed spec fn phase_spec(&self) -> PanelPhase {
        self.phase
    }

    /// A panel about to take its first reading.
    pub fn new() -> (r: Self)
        ensures
            r.phase_spec() == PanelPhase::Sample,
    {
        ButtonPanel { phase: PanelPhase::Sample }
    }

    /// The phase the loop is in.
    pub fn phase(&self) -> (r: PanelPhase)
        ensures
            r == self.phase_spec(),
    {
        self.phase
    }

    /// Feed one reading of the button (`true` when it reads high); the
    /// action comes back for the caller to perform.
    pub fn on_reading(&mut self, high: bool) -> (r: PanelAction)
        ensures
            (final(self).phase_spec(), r) == panel_next(old(self).phase_spec(), high),
    {
        let (next, action) = match self.phase {
            PanelPhase::Sample => if high {
                (PanelPhase::Confirm, PanelAction::RedOnThenSettle)
            } else {
                (PanelPhase::Sample, PanelAction::RedOff)
            },
            PanelPhase::Confirm => if high {
                (PanelPhase::WaitRelease, PanelAction::ToggleGreen)
            } else {
                (PanelPhase::Sample, PanelAction::Nothing)
            },
            PanelPhase::WaitRelease => if high {
                (PanelPhase::WaitRelease, PanelAction::Nothing)
            } else {
                (PanelPhase::Sample, PanelAction::Nothing)
            },
        };
        self.phase = next;
        action
    }
}

/// Each fresh reading is mirrored on the red LED, a settled second high
/// reading is the only thing that toggles the green LED, a bounce sends
/// the loop back to a fresh reading, and the loop leaves the wait for
/// release exactly when the button reads low.
pub proof fn lemma_panel_behaviour(high: bool)
    ensures
        panel_next(PanelPhase::Sample, high).1 == (if high {
            PanelAction::RedOnThenSettle
        } else {
            PanelAction::RedOff
        }),
        forall|p: PanelPhase| #[trigger]
            panel_next(p, high).1 == PanelAction::ToggleGreen <==> (p == PanelPhase::Confirm
                && high),
        !high ==> panel_next(PanelPhase::Confirm, high) == (
            PanelPhase::Sample,
            PanelAction::Nothing,
        ),
        (panel_next(PanelPhase::WaitRelease, high).0 == PanelPhase::WaitRelease) == high,
        panel_next(PanelPhase::WaitRelease, high).1 == PanelAction::Nothing,
{
}

proof fn lemma_phase_after_step(start: PanelPhase, readings: Seq<bool>, i: int)
    requires
        0 <= i < readings.len(),
    ensures
        phase_after(start, readings.take(i + 1)) == panel_next(
            phase_after(start, readings.take(i)),
            readings[i],
        ).0,
{
    assert(readings.take(i + 1).drop_last() =~= readings.take(i));
}

/// A run of high readings keeps a panel that waits for release waiting.
proof fn lemma_held_button_keeps_waiting(start: PanelPhase, readings: Seq<bool>, i: int, j: int)
    requires
        0 <= i <= j <= readings.len(),
        phase_after(start, readings.take(i)) == PanelPhase::WaitRelease,
        forall|k: int| i <= k < j ==> #[trigger] readings[k],
    ensures
        phase_after(start, readings.take(j)) == PanelPhase::WaitRelease,
    decreases j - i,
{
    if i < j {
        lemma_phase_after_step(start, readings, i);
        assert(readings[i]);
        lemma_held_button_keeps_waiting(start, readings, i + 1, j);
    }
}

/// From a fresh start, the green LED toggles only on a reading that is
/// high and follows a high reading: the press must last past the settle
/// time.
pub proof fn lemma_toggle_needs_two_high_readings(readings: Seq<bool>, j: int)
    requires
        0 <= j < readings.len(),
        action_at(PanelPhase::Sample, readings, j) == PanelAction::ToggleGreen,
    ensures
        j >= 1,
        readings[j - 1],
        readings[j],
        action_at(PanelPhase::Sample, readings, j - 1) == PanelAction::RedOnThenSettle,
{
    let start = PanelPhase::Sample;
    assert(phase_after(start, readings.take(j)) == PanelPhase::Confirm);
    if j == 0 {
        assert(readings.take(0).len() == 0);
        assert(false);
    }
    lemma_phase_after_step(start, readings, j - 1);
    assert(readings.take(j - 1 + 1) == readings.take(j));
}

/// The green LED toggles at most once per press: between two toggles there
/// is always a reading with the button released.
pub proof fn lemma_one_toggle_per_press(start: PanelPhase, readings: Seq<bool>, i: int, j: int)
    requires
        0 <= i < j < readings.len(),
        action_at(start, readings, i) == PanelAction::ToggleGreen,
        action_at(start, readings, j) == PanelAction::ToggleGreen,
    ensures
        exists|k: int| i < k < j && !#[trigger] readings[k],
{
    lemma_phase_after_step(start, readings, i);
    assert(phase_after(start, readings.take(i + 1)) == PanelPhase::WaitRelease);
    if forall|k: int| i < k < j ==> #[trigger] readings[k] {
        assert forall|k: int| i + 1 <= k < j implies #[trigger] readings[k] by {
            assert(i < k < j);
        }
        lemma_held_button_keeps_waiting(start, readings, i + 1, j);
        assert(false);
    }
}

/// What the button's external interrupt asks of the caller in the LED
/// toggle demo.
#[derive(PartialEq, Eq, Structural, Clone, Copy, Debug)]
pub enum ExtiLedAction {
    /// Toggle the green LED, report it, and clear the pending bit.
    ToggleAndClear,
    /// The interrupt was not the button's: leave the LED and the bit alone.
    Ignore,
}

/// The LED toggle demo's interrupt: a set pending bit toggles the LED once
/// and is cleared; otherwise nothing happens.
pub fn exti_led_action(pending: bool) -> (r: ExtiLedAction)
    ensures
        pending <==> r == ExtiLedAction::ToggleAndClear,
        !pending <==> r == ExtiLedAction::Ignore,
{
    if pending {
        ExtiLedAction::ToggleAndClear
    } else {
        ExtiLedAction::Ignore
    }
}

} // verus!
