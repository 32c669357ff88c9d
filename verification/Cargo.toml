[package]
name = "h7_examples"
version = "0.1.0"
edition = "2021"
publish = false

[dependencies]
cortex-m = { version = "*", features = ["critical-section-single-core"] }
cortex-m-rt = "*"
defmt = "*"
defmt-rtt = "*"
panic-probe = { version = "*", features = ["print-defmt"] }
stm32h7xx-hal = { version = "*", features = ["stm32h743v", "rt"] }
