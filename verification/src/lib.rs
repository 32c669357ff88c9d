//! Decision logic of a set of STM32H7 board demos: the button-driven PWM
//! ramp, the percentage sweep of an advanced-timer PWM, the idle-line
//! receive buffer of a UART, the debounced button panel and the LED
//! blink sequences. The hardware work stays with the caller, which reads
//! the peripherals, hands the readings in, and performs what comes back.
pub mod button_panel;
pub mod button_ramp;
pub mod duty_sweep;
pub mod led_sequence;
pub mod uart_line;
