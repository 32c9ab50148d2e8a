[package]
name = "frame_relay"
version = "0.1.0"
edition = "2021"
publish = false

[dependencies]
heapless = "=0.8.0"
defmt = "*"
defmt-rtt = "*"
embassy-executor = "*"
embassy-futures = "*"
embassy-rp = "=0.2.0"
embassy-time = "*"
embassy-usb = "*"
embedded-io-async = "*"
panic-probe = "*"
static_cell = "*"
