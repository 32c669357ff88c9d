use h7_examples::uart_line::{classify_uart_irq, UartIrq};
use h7_examples::uart_line::{LineBuffer, UartEvent, BUFFER_MAX, WRAP_AT};

#[test]
fn line_buffer_starts_empty() {
    let mut b = LineBuffer::new();
    assert_eq!(b.pending_len(), 0);
    assert_eq!(b.take_line(), Vec::<u8>::new());
    assert_eq!(BUFFER_MAX, 100);
}

#[test]
fn idle_sends_back_received_line() {
    let mut b = LineBuffer::new();
    for &c in b"hello" {
        b.push_byte(c);
    }
    assert_eq!(b.pending_len(), 5);
    assert_eq!(b.take_line(), b"hello".to_vec());
    assert_eq!(b.pending_len(), 0);
    b.push_byte(b'x');
    assert_eq!(b.take_line(), vec![b'x']);
}

#[test]
fn line_wraps_at_ninety_nine_bytes() {
    let mut b = LineBuffer::new();
    for i in 0..(WRAP_AT - 1) {
        b.push_byte(i as u8);
    }
    assert_eq!(b.pending_len(), 98);
    b.push_byte(200);
    assert_eq!(b.pending_len(), 0);
    b.push_byte(7);
    b.push_byte(8);
    assert_eq!(b.take_line(), vec![7, 8]);
}

#[test]
fn pending_is_tail_after_many_bytes() {
    let mut b = LineBuffer::new();
    let bytes: Vec<u8> = (0..250u32).map(|i| (i % 256) as u8).collect();
    for &c in &bytes {
        b.push_byte(c);
    }
    let keep = bytes.len() % 99;
    assert_eq!(b.take_line(), bytes[bytes.len() - keep..].to_vec());
}

#[test]
fn events_drive_the_buffer() {
    let mut b = LineBuffer::new();
    assert_eq!(b.on_event(UartEvent::Received(b'a')), None);
    assert_eq!(b.on_event(UartEvent::Received(b'b')), None);
    assert_eq!(b.on_event(UartEvent::Nothing), None);
    assert_eq!(b.pending_len(), 2);
    assert_eq!(b.on_event(UartEvent::Idle), Some(vec![b'a', b'b']));
    assert_eq!(b.on_event(UartEvent::Idle), Some(vec![]));
}

#[test]
fn received_byte_takes_precedence_over_idle() {
    assert_eq!(classify_uart_irq(true, true), UartIrq::ReadByte);
    assert_eq!(classify_uart_irq(true, false), UartIrq::ReadByte);
    assert_eq!(classify_uart_irq(false, true), UartIrq::LineIdle);
    assert_eq!(classify_uart_irq(false, false), UartIrq::Spurious);
}
