[package]
name = "spdm_demo"
version = "0.1.0"
edition = "2021"
publish = false

[dependencies]
mctp = { version = "=0.2.0", default-features = false }
defmt = "1.0"
defmt-rtt = "1.0"
embassy-executor = { version = "=0.10.0", features = ["defmt"] }
embassy-stm32 = { version = "=0.6.0", features = ["stm32h753zi", "time-driver-any", "defmt"] }
embassy-sync = { version = "0.8.0", features = ["defmt"] }
embassy-time = { version = "0.5.1", features = ["defmt", "tick-hz-32_768"] }
embedded-hal-async = "1.0.0"
panic-probe = { version = "1.0.0", features = ["print-defmt"] }
static_cell = "2.1.1"
