use vstd::prelude::*;

verus! {

/// Size of the receive buffer in bytes.
pub const BUFFER_MAX: usize = 100;

/// Number of pending bytes at which the buffer starts over from empty.
pub const WRAP_AT: usize = 99;

/// The pending line after one more received byte: the byte is appended,
/// unless that fills the buffer up to the wrap point, in which case the
/// pending line is dropped and the buffer starts over.
pub open spec fn receive_next(pending: Seq<u8>, byte: u8) -> Seq<u8> {
    if pending.len() + 1 >= WRAP_AT {
        Seq::empty()
    } else {
        pending.push(byte)
    }
}

/// The pending line after receiving `bytes` one by one, from `pending`.
pub open spec fn receive_all(pending: Seq<u8>, bytes: Seq<u8>) -> Seq<u8>
    decreases bytes.len(),
{
    if bytes.len() == 0 {
        pending
    } else {
        receive_next(receive_all(pending, bytes.drop_last()), bytes.last())
    }
}

/// What the UART interrupt found: a received byte, an idle line, or
/// neither.
pub enum UartEvent {
    Received(u8),
    Idle,
    Nothing,
}

/// Which of the receiver's flags the UART interrupt serves.
#[derive(PartialEq, Eq, Structural, Clone, Copy, Debug)]
pub enum UartIrq {
    /// A byte is waiting: read it.
    ReadByte,
    /// The line has gone idle: send the pending line back.
    LineIdle,
    /// Neither flag is set.
    Spurious,
}

/// The interrupt's choice between its flags: a waiting byte is read
/// first, even when the line has also gone idle; the idle line is served
/// only when no byte is waiting.
pub fn classify_uart_irq(rx_not_empty: bool, idle: bool) -> (r: UartIrq)
    ensures
        rx_not_empty ==> r == UartIrq::ReadByte,
        !rx_not_empty && idle ==> r == UartIrq::LineIdle,
        !rx_not_empty && !idle ==> r == UartIrq::Spurious,
{
    if rx_not_empty {
        UartIrq::ReadByte
    } else if idle {
        UartIrq::LineIdle
    } else {
        UartIrq::Spurious
    }
}

/// The receive side of the serial echo: bytes accumulate in a fixed
/// buffer until the line goes idle, and then the whole pending line is
/// sent back.
pub struct LineBuffer {
    data: Vec<u8>,
    len: usize,
}

impl View for LineBuffer {
    type V = Seq<u8>;

    /// The pending line: the bytes received since the last idle line or
    /// wrap.
    closed spec fn view(&self) -> Seq<u8> {
        self.data@.subrange(0, self.len as int)
    }
}

impl LineBuffer {
    /// Number of pending bytes, which is also where the next received byte
    /// is stored.
    pub closed spec fn fill(&self) -> int {
        self.len as int
    }

    /// Well-formedness: the storage holds `BUFFER_MAX` bytes, fewer than
    /// `WRAP_AT` of them are pending, and the pending line is the front of
    /// the storage.
    pub open spec fn wf(&self) -> bool {
        &&& self.storage().len() == BUFFER_MAX
        &&& 0 <= self.fill() < WRAP_AT
        &&& self@ == self.storage().subrange(0, self.fill())
    }

    /// The whole storage of the buffer, pending line and stale bytes alike.
    pub closed spec fn storage(&self) -> Seq<u8> {
        self.data@
    }

    /// An empty buffer whose storage is all zero.
    pub fn new() -> (r: Self)
        ensures
            r.wf(),
            r@ == Seq::<u8>::empty(),
            r.storage() == Seq::new(BUFFER_MAX as nat, |i: int| 0u8),
    {
        let data: Vec<u8> = vec![0u8; BUFFER_MAX];
        let r = LineBuffer { data, len: 0 };
        assert(r.storage() =~= Seq::new(BUFFER_MAX as nat, |i: int| 0u8));
        assert(r@ =~= Seq::<u8>::empty());
        r
    }

    /// Number of pending bytes.
    pub fn pending_len(&self) -> (r: usize)
        requires
            self.wf(),
        ensures
            r == self@.len(),
            r < WRAP_AT,
    {
        self.len
    }

    /// A byte has arrived: it is stored at the end of the pending line,
    /// and the line is dropped once it reaches the wrap point.
    pub fn push_byte(&mut self, byte: u8)
        requires
            old(self).wf(),
        ensures
            final(self).wf(),
            final(self)@ == receive_next(old(self)@, byte),
            final(self).storage() == old(self).storage().update(old(self)@.len() as int, byte),
            final(self)@.len() < WRAP_AT,
    {
        let pos = self.len;
        self.data.set(pos, byte);
        if pos + 1 >= WRAP_AT {
            self.len = 0;
        } else {
            self.len = pos + 1;
        }
        proof {
            if pos + 1 < WRAP_AT {
                assert(self@ =~= old(self)@.push(byte));
            } else {
                assert(self@ =~= Seq::<u8>::empty());
            }
        }
    }

    /// The line has gone idle: the pending line comes back to be sent, and
    /// the buffer is empty again.
    pub fn take_line(&mut self) -> (r: Vec<u8>)
        requires
            old(self).wf(),
        ensures
            final(self).wf(),
            r@ == old(self)@,
            final(self)@ == Seq::<u8>::empty(),
            final(self).storage() == old(self).storage(),
    {
        let mut out: Vec<u8> = Vec::new();
        let mut i: usize = 0;
        while i < self.len
            invariant
                self.len < WRAP_AT,
                self.data@.len() == BUFFER_MAX,
                i <= self.len,
                out@ == self.data@.subrange(0, i as int),
            decreases self.len - i,
        {
            out.push(self.data[i]);
            i = i + 1;
            assert(out@ =~= self.data@.subrange(0, i as int));
        }
        self.len = 0;
        assert(self@ =~= Seq::<u8>::empty());
        out
    }

    /// The UART interrupt: a received byte is buffered, an idle line hands
    /// back the pending line to send and empties the buffer, and anything
    /// else leaves the buffer as it is.
    pub fn on_event(&mut self, event: UartEvent) -> (r: Option<Vec<u8>>)
        requires
            old(self).wf(),
        ensures
            final(self).wf(),
            match event {
                UartEvent::Received(b) => r is None && final(self)@ == receive_next(old(self)@, b)
                    && final(self).storage() == old(self).storage().update(
                    old(self)@.len() as int,
                    b,
                ),
                UartEvent::Idle => r is Some && r->0@ == old(self)@ && final(self)@
                    == Seq::<u8>::empty() && final(self).storage() == old(self).storage(),
                UartEvent::Nothing => r is None && final(self)@ == old(self)@ && final(self).storage()
                    == old(self).storage(),
            },
    {
        match event {
            UartEvent::Received(b) => {
                self.push_byte(b);
                None
            },
            UartEvent::Idle => Some(self.take_line()),
            UartEvent::Nothing => None,
        }
    }
}

/// A received byte lengthens a short pending line by exactly that byte at
/// its end and keeps what was there; the byte that brings the line to
/// ninety-nine drops the whole line.
pub proof fn lemma_receive_behaviour(pending: Seq<u8>, byte: u8)
    requires
        pending.len() < WRAP_AT,
    ensures
        pending.len() < 98 ==> receive_next(pending, byte).len() == pending.len() + 1
            && receive_next(pending, byte).last() == byte
            && receive_next(pending, byte).subrange(0, pending.len() as int) == pending,
        pending.len() == 98 ==> receive_next(pending, byte).len() == 0,
{
    if pending.len() < 98 {
        assert(receive_next(pending, byte).subrange(0, pending.len() as int) =~= pending);
    }
}

/// Starting from an empty buffer, the pending line is always the tail of
/// what was received: the bytes after the last multiple of the wrap
/// point, fewer than the wrap point in number.
pub proof fn lemma_pending_is_tail(bytes: Seq<u8>)
    ensures
        receive_all(Seq::empty(), bytes) == bytes.subrange(
            bytes.len() - (bytes.len() as int) % (WRAP_AT as int),
            bytes.len() as int,
        ),
        receive_all(Seq::empty(), bytes).len() < WRAP_AT,
    decreases bytes.len(),
{
    let n = bytes.len() as int;
    if n > 0 {
        let prev = bytes.drop_last();
        lemma_pending_is_tail(prev);
        let m = n - 1;
        let w = WRAP_AT as int;
        if m % w + 1 >= w {
            assert(n % w == 0) by (nonlinear_arith)
                requires
                    m % w + 1 >= w,
                    n == m + 1,
                    w == 99,
            ;
            assert(bytes.subrange(n, n) =~= Seq::<u8>::empty());
        } else {
            assert(n % w == m % w + 1) by (nonlinear_arith)
                requires
                    m % w + 1 < w,
                    n == m + 1,
                    w == 99,
            ;
            assert(prev.subrange(m - m % w, m).push(bytes.last()) =~= bytes.subrange(
                n - n % w,
                n,
            ));
        }
    }
}

/// What goes out on an idle line is exactly what was received since the
/// buffer was last empty, as long as that is fewer bytes than the wrap
/// point.
pub proof fn lemma_idle_echoes_short_line(bytes: Seq<u8>)
    requires
        bytes.len() < WRAP_AT,
    ensures
        receive_all(Seq::empty(), bytes) == bytes,
{
    lemma_pending_is_tail(bytes);
    vstd::arithmetic::div_mod::lemma_small_mod(bytes.len(), WRAP_AT as nat);
    assert(bytes.subrange(0, bytes.len() as int) =~= bytes);
}

} // verus!
