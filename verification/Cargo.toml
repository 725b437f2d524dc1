[package]
name = "microbit-bsp"
version = "0.1.0"
edition = "2021"
publish = false

[dependencies]
embassy-nrf = { version = "=0.3.1", features = ["nrf52833", "gpiote", "time-driver-rtc1", "time", "nfc-pins-as-gpio"] }
embassy-sync = "=0.6.2"
embassy-time = "=0.4.0"
lsm303agr = "=1.1.0"
nb = "=1.1.0"
nrf-sdc = "=0.1.1"
static_cell = "=2.1.1"
