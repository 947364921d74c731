[package]
name = "embassy-mcxa"
version = "0.1.0"
edition = "2021"
publish = false

[dependencies]
critical-section = { version = "1", features = ["std"] }
embassy-hal-internal = "*"
embassy-sync = "*"
embassy-usb-driver = "*"
paste = "1"
