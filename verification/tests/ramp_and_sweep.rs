use h7_examples::button_ramp::{ButtonRamp, DUTY_STEP};
use h7_examples::duty_sweep::{DutySweep, SWEEP_TOP};

#[test]
fn ramp_starts_downward() {
    let r = ButtonRamp::new();
    assert!(!r.is_raising());
}

#[test]
fn ramp_steps_down_from_full_duty() {
    let mut r = ButtonRamp::new();
    assert_eq!(r.press(1200, 1200), 900);
    assert_eq!(r.press(900, 1200), 600);
    assert_eq!(r.press(600, 1200), 300);
    assert!(!r.is_raising());
}

#[test]
fn ramp_restarts_at_one_step_from_zero() {
    let mut r = ButtonRamp::new();
    assert_eq!(r.press(300, 1200), DUTY_STEP);
    assert!(r.is_raising());
    assert_eq!(r.press(300, 1200), 600);
    assert_eq!(r.press(600, 1200), 900);
    assert!(r.is_raising());
}

#[test]
fn ramp_clamps_at_max_and_turns() {
    let mut r = ButtonRamp::new();
    r.press(300, 1000);
    assert!(r.is_raising());
    assert_eq!(r.press(900, 1000), 1000);
    assert!(!r.is_raising());
    assert_eq!(r.press(1000, 1000), 700);
}

#[test]
fn ramp_reports_overflow() {
    let mut r = ButtonRamp::new();
    assert!(r.would_overflow(299));
    assert!(!r.would_overflow(300));
    r.press(300, 1000);
    assert!(r.is_raising());
    assert!(!r.would_overflow(u16::MAX - 300));
    assert!(r.would_overflow(u16::MAX - 299));
}

#[test]
fn ramp_interrupt_only_when_pending() {
    let mut r = ButtonRamp::new();
    assert_eq!(r.on_exti(false, 50, 1000), None);
    assert!(!r.is_raising());
    assert_eq!(r.on_exti(true, 1000, 1000), Some(700));
}

#[test]
fn sweep_starts_at_top() {
    let s = DutySweep::new();
    assert_eq!(s.percent(), SWEEP_TOP);
    assert!(!s.is_raising());
    assert_eq!(s.duty_for(1000), 1000);
    assert_eq!(s.duty_for(65535), 65500);
}

#[test]
fn sweep_duty_uses_whole_hundredths() {
    let mut s = DutySweep::new();
    s.advance();
    assert_eq!(s.percent(), 99);
    assert_eq!(s.duty_for(1234), 12 * 99);
    assert_eq!(s.duty_for(99), 0);
}

#[test]
fn sweep_turns_at_zero_and_top() {
    let mut s = DutySweep::new();
    for _ in 0..100 {
        s.advance();
    }
    assert_eq!(s.percent(), 0);
    assert!(s.is_raising());
    assert_eq!(s.duty_for(1000), 0);
    for _ in 0..100 {
        s.advance();
    }
    assert_eq!(s.percent(), 100);
    assert!(!s.is_raising());
}

#[test]
fn sweep_traces_triangle_wave() {
    let mut s = DutySweep::new();
    for n in 0u32..1000 {
        let k = n % 200;
        let expected = if k < 100 { 100 - k } else { k - 100 };
        assert_eq!(s.percent() as u32, expected);
        assert!(s.percent() <= 100);
        s.advance();
    }
}

#[test]
fn ramp_round_takes_two_k_minus_one_presses() {
    for k in 2u16..=20 {
        let max = 300 * k;
        let mut r = ButtonRamp::new();
        let mut duty = max;
        let mut presses = 0u32;
        loop {
            duty = r.press(duty, max);
            presses += 1;
            if duty == max && !r.is_raising() {
                break;
            }
            assert!(presses < 2 * k as u32 - 1);
        }
        assert_eq!(presses, 2 * k as u32 - 1);
    }
}

#[test]
fn ramp_round_of_one_step_takes_two_presses() {
    let mut r = ButtonRamp::new();
    assert_eq!(r.press(300, 300), 300);
    assert!(r.is_raising());
    assert_eq!(r.press(300, 300), 300);
    assert!(!r.is_raising());
}
