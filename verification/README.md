# h7_examples

Verified decision logic for a set of STM32H743 board demos.

- `src/` (Verus): the button-driven PWM duty ramp (`button_ramp`), the
  percentage sweep of the advanced timer (`duty_sweep`), the idle-line
  UART receive buffer (`uart_line`), the debounced button panel
  (`button_panel`) and the LED blink patterns (`led_sequence`).
- `app/` (plain Rust, `no_std` firmware): peripheral set-up, interrupt
  handlers and polling loops. Where a demo makes a decision, the app reads
  the hardware, hands the readings to the library and performs what it
  answers; the demos that only print, wait or echo bytes are plain I/O.
- `tests/`: unit tests of the library on concrete values.
