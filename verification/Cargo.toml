[package]
name = "nimble_port"
version = "0.1.0"
edition = "2021"
publish = false

[dependencies]
bt-hci = "=0.1.2"
critical-section = { version = "=1.2.0", features = ["std"] }
cstr_core = "=0.2.6"
cty = "=0.2.2"
embassy-futures = "=0.1.2"
embassy-sync = "=0.6.2"
embassy-time = { version = "=0.4.0", features = ["std", "generic-queue-8"] }
embassy-time-driver = "=0.2.2"
embedded-io = "=0.6.1"
nrf52840-pac = "=0.12.2"
