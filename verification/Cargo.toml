[package]
name = "serial_comm"
version = "0.1.0"
edition = "2021"
publish = false

[dependencies]
log = "0.4"
serialport = { version = "4", default-features = false }
