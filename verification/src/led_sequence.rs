use vstd::prelude::*;

verus! {

/// The two user LEDs of the board.
#[derive(PartialEq, Eq, Structural, Clone, Copy, Debug)]
pub enum Led {
    Green,
    Red,
}

/// One step of a blink pattern.
#[derive(PartialEq, Eq, Structural, Clone, Copy, Debug)]
pub enum LedCommand {
    On(Led),
    Off(Led),
    WaitMs(u32),
}

/// Green and red light up in turn, then both go dark together.
pub open spec fn chase_cycle() -> Seq<LedCommand> {
    seq![
        LedCommand::On(Led::Green),
        LedCommand::WaitMs(500),
        LedCommand::On(Led::Red),
        LedCommand::WaitMs(500),
        LedCommand::Off(Led::Green),
        LedCommand::Off(Led::Red),
        LedCommand::WaitMs(500),
    ]
}

/// Green blinks once, then red blinks once.
pub open spec fn alternate_cycle() -> Seq<LedCommand> {
    seq![
        LedCommand::On(Led::Green),
        LedCommand::WaitMs(500),
        LedCommand::Off(Led::Green),
        LedCommand::WaitMs(500),
        LedCommand::On(Led::Red),
        LedCommand::WaitMs(500),
        LedCommand::Off(Led::Red),
        LedCommand::WaitMs(500),
    ]
}

/// The levels of the green and red LEDs after a run of commands.
pub open spec fn levels_after(cmds: Seq<LedCommand>, green: bool, red: bool) -> (bool, bool)
    decreases cmds.len(),
{
    if cmds.len() == 0 {
        (green, red)
    } else {
        let (g, r) = levels_after(cmds.drop_last(), green, red);
        match cmds.last() {
            LedCommand::On(Led::Green) => (true, r),
            LedCommand::On(Led::Red) => (g, true),
            LedCommand::Off(Led::Green) => (false, r),
            LedCommand::Off(Led::Red) => (g, false),
            LedCommand::WaitMs(_) => (g, r),
        }
    }
}

/// Total waiting time, in milliseconds, of a run of commands.
pub open spec fn total_wait(cmds: Seq<LedCommand>) -> int
    decreases cmds.len(),
{
    if cmds.len() == 0 {
        0
    } else {
        total_wait(cmds.drop_last()) + match cmds.last() {
            LedCommand::WaitMs(ms) => ms as int,
            _ => 0,
        }
    }
}

/// Milliseconds spent waiting, over a run of commands from the given
/// levels, with the green LED lit, with the red LED lit, and with both lit.
pub open spec fn lit_time(cmds: Seq<LedCommand>, green: bool, red: bool) -> (int, int, int)
    decreases cmds.len(),
{
    if cmds.len() == 0 {
        (0, 0, 0)
    } else {
        let (tg, tr, tb) = lit_time(cmds.drop_last(), green, red);
        let (g, r) = levels_after(cmds.drop_last(), green, red);
        match cmds.last() {
            LedCommand::WaitMs(ms) => (
                tg + if g { ms as int } else { 0 },
                tr + if r { ms as int } else { 0 },
                tb + if g && r { ms as int } else { 0 },
            ),
            _ => (tg, tr, tb),
        }
    }
}

/// A blink pattern played in a loop: each call hands out the next command,
/// starting over after the last one.
pub struct BlinkLoop {
    cmds: Vec<LedCommand>,
    next: usize,
}

impl BlinkLoop {
    /// The pattern being played.
    pub closed spec fn pattern(&self) -> Seq<LedCommand> {
        self.cmds@
    }

    /// Index of the command handed out next.
    pub closed spec fn position(&self) -> int {
        self.next as int
    }

    /// Well-formedness: a non-empty pattern and a position inside it.
    pub closed spec fn wf(&self) -> bool {
        0 <= self.next < self.cmds@.len()
    }

    /// The pattern in which green and red light up in turn and go dark
    /// together.
    pub fn chase() -> (r: Self)
        ensures
            r.wf(),
            r.pattern() == chase_cycle(),
            r.position() == 0,
    {
        let cmds = vec![
            LedCommand::On(Led::Green),
            LedCommand::WaitMs(500),
            LedCommand::On(Led::Red),
            LedCommand::WaitMs(500),
            LedCommand::Off(Led::Green),
            LedCommand::Off(Led::Red),
            LedCommand::WaitMs(500),
        ];
        assert(cmds@ =~= chase_cycle());
        BlinkLoop { cmds, next: 0 }
    }

    /// The pattern in which green blinks once and then red blinks once.
    pub fn alternate() -> (r: Self)
        ensures
            r.wf(),
            r.pattern() == alternate_cycle(),
            r.position() == 0,
    {
        let cmds = vec![
            LedCommand::On(Led::Green),
            LedCommand::WaitMs(500),
            LedCommand::Off(Led::Green),
            LedCommand::WaitMs(500),
            LedCommand::On(Led::Red),
            LedCommand::WaitMs(500),
            LedCommand::Off(Led::Red),
            LedCommand::WaitMs(500),
        ];
        assert(cmds@ =~= alternate_cycle());
        BlinkLoop { cmds, next: 0 }
    }

    /// The next command of the pattern, wrapping around at its end.
    pub fn next_command(&mut self) -> (r: LedCommand)
        requires
            old(self).wf(),
        ensures
            final(self).wf(),
            r == old(self).pattern()[old(self).position()],
            final(self).pattern() == old(self).pattern(),
            final(self).position() == (old(self).position() + 1) % (old(self).pattern().len() as int),
    {
        let r = self.cmds[self.next];
        if self.next >= self.cmds.len() - 1 {
            self.next = 0;
            assert((old(self).position() + 1) % (old(self).pattern().len() as int) == 0) by {
                vstd::arithmetic::div_mod::lemma_mod_self_0(old(self).pattern().len() as int);
            }
        } else {
            self.next = self.next + 1;
            proof {
                vstd::arithmetic::div_mod::lemma_small_mod(
                    self.next as nat,
                    old(self).pattern().len() as nat,
                );
            }
        }
        r
    }
}

/// Whatever the LEDs showed before, each cycle of either pattern leaves
/// both dark; the chase cycle lasts 1500 ms and the alternating one 2000 ms.
pub proof fn lemma_cycles_end_dark(green: bool, red: bool)
    ensures
        levels_after(chase_cycle(), green, red) == (false, false),
        levels_after(alternate_cycle(), green, red) == (false, false),
        total_wait(chase_cycle()) == 1500,
        total_wait(alternate_cycle()) == 2000,
{
    reveal_with_fuel(levels_after, 9);
    reveal_with_fuel(total_wait, 9);
}

/// From dark, the alternating pattern never lights both LEDs at once:
/// after every prefix of the cycle at most one of them is lit. Green is
/// lit for 500 ms of the cycle and red for 500 ms, never together, and
/// green goes dark before red lights.
pub proof fn lemma_alternate_never_overlaps()
    ensures
        forall|i: int|
            0 <= i <= alternate_cycle().len() ==> #[trigger] levels_after(
                alternate_cycle().take(i),
                false,
                false,
            ) != (true, true),
        lit_time(alternate_cycle(), false, false) == (500int, 500int, 0int),
        levels_after(alternate_cycle().take(1), false, false) == (true, false),
        levels_after(alternate_cycle().take(3), false, false) == (false, false),
        levels_after(alternate_cycle().take(5), false, false) == (false, true),
{
    let c = alternate_cycle();
    reveal_with_fuel(levels_after, 9);
    reveal_with_fuel(lit_time, 9);
    assert(c.take(0) =~= seq![]);
    assert(c.take(1) =~= seq![LedCommand::On(Led::Green)]);
    assert(c.take(2) =~= c.take(1).push(LedCommand::WaitMs(500)));
    assert(c.take(3) =~= c.take(2).push(LedCommand::Off(Led::Green)));
    assert(c.take(4) =~= c.take(3).push(LedCommand::WaitMs(500)));
    assert(c.take(5) =~= c.take(4).push(LedCommand::On(Led::Red)));
    assert(c.take(6) =~= c.take(5).push(LedCommand::WaitMs(500)));
    assert(c.take(7) =~= c.take(6).push(LedCommand::Off(Led::Red)));
    assert(c.take(8) =~= c);
    assert(c.take(7).push(LedCommand::WaitMs(500)) =~= c);
    assert(c.take(1).drop_last() =~= c.take(0));
    assert(c.take(2).drop_last() =~= c.take(1));
    assert(c.take(3).drop_last() =~= c.take(2));
    assert(c.take(4).drop_last() =~= c.take(3));
    assert(c.take(5).drop_last() =~= c.take(4));
    assert(c.take(6).drop_last() =~= c.take(5));
    assert(c.take(7).drop_last() =~= c.take(6));
    assert(c.drop_last() =~= c.take(7));
    assert forall|i: int| 0 <= i <= c.len() implies #[trigger] levels_after(
        c.take(i),
        false,
        false,
    ) != (true, true) by {
        if i == 0 {
        } else if i == 1 {
        } else if i == 2 {
        } else if i == 3 {
        } else if i == 4 {
        } else if i == 5 {
        } else if i == 6 {
        } else if i == 7 {
        } else {
        }
    }
}

/// From dark, the chase pattern lights green first, then red alongside
/// it: green is lit for 1000 ms of the cycle, red for 500 ms, and both
/// together for those same 500 ms.
pub proof fn lemma_chase_timing()
    ensures
        lit_time(chase_cycle(), false, false) == (1000int, 500int, 500int),
        levels_after(chase_cycle().take(1), false, false) == (true, false),
        levels_after(chase_cycle().take(3), false, false) == (true, true),
{
    let c = chase_cycle();
    reveal_with_fuel(levels_after, 9);
    reveal_with_fuel(lit_time, 9);
    assert(c.take(1) =~= seq![LedCommand::On(Led::Green)]);
    assert(c.take(1).drop_last() =~= seq![]);
    assert(c.take(2) =~= c.take(1).push(LedCommand::WaitMs(500)));
    assert(c.take(3) =~= c.take(2).push(LedCommand::On(Led::Red)));
    assert(c.take(3).drop_last() =~= c.take(2));
    assert(c.take(2).drop_last() =~= c.take(1));
}

} // verus!
