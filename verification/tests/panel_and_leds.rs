use h7_examples::button_panel::{exti_led_action, ExtiLedAction};
use h7_examples::button_panel::{ButtonPanel, PanelAction, PanelPhase, SETTLE_MS};
use h7_examples::led_sequence::{BlinkLoop, Led, LedCommand};

#[test]
fn red_follows_button_when_sampling() {
    let mut p = ButtonPanel::new();
    assert_eq!(p.phase(), PanelPhase::Sample);
    assert_eq!(p.on_reading(false), PanelAction::RedOff);
    assert_eq!(p.phase(), PanelPhase::Sample);
    assert_eq!(p.on_reading(true), PanelAction::RedOnThenSettle);
    assert_eq!(p.phase(), PanelPhase::Confirm);
    assert_eq!(SETTLE_MS, 10);
}

#[test]
fn bounce_does_not_toggle() {
    let mut p = ButtonPanel::new();
    p.on_reading(true);
    assert_eq!(p.on_reading(false), PanelAction::Nothing);
    assert_eq!(p.phase(), PanelPhase::Sample);
}

#[test]
fn held_press_toggles_once() {
    let mut p = ButtonPanel::new();
    let readings = [true, true, true, true, true, false, true, true, false];
    let actions: Vec<PanelAction> = readings.iter().map(|&h| p.on_reading(h)).collect();
    assert_eq!(
        actions,
        vec![
            PanelAction::RedOnThenSettle,
            PanelAction::ToggleGreen,
            PanelAction::Nothing,
            PanelAction::Nothing,
            PanelAction::Nothing,
            PanelAction::Nothing,
            PanelAction::RedOnThenSettle,
            PanelAction::ToggleGreen,
            PanelAction::Nothing,
        ]
    );
    assert_eq!(p.phase(), PanelPhase::Sample);
}

#[test]
fn chase_pattern_and_wrap() {
    let mut b = BlinkLoop::chase();
    let got: Vec<LedCommand> = (0..8).map(|_| b.next_command()).collect();
    assert_eq!(
        got,
        vec![
            LedCommand::On(Led::Green),
            LedCommand::WaitMs(500),
            LedCommand::On(Led::Red),
            LedCommand::WaitMs(500),
            LedCommand::Off(Led::Green),
            LedCommand::Off(Led::Red),
            LedCommand::WaitMs(500),
            LedCommand::On(Led::Green),
        ]
    );
}

#[test]
fn alternate_pattern_ends_dark() {
    let mut b = BlinkLoop::alternate();
    let mut green = true;
    let mut red = true;
    let mut waited = 0u32;
    for _ in 0..8 {
        match b.next_command() {
            LedCommand::On(Led::Green) => green = true,
            LedCommand::On(Led::Red) => red = true,
            LedCommand::Off(Led::Green) => green = false,
            LedCommand::Off(Led::Red) => red = false,
            LedCommand::WaitMs(ms) => waited += ms,
        }
    }
    assert!(!green && !red);
    assert_eq!(waited, 2000);
    assert_eq!(b.next_command(), LedCommand::On(Led::Green));
}

#[test]
fn exti_toggles_only_when_pending() {
    assert_eq!(exti_led_action(true), ExtiLedAction::ToggleAndClear);
    assert_eq!(exti_led_action(false), ExtiLedAction::Ignore);
}
