[package]
name = "serial_pump"
version = "0.1.0"
edition = "2021"
publish = false

[dependencies]
serialport = { version = "*", default-features = false }
futures = "0.1"
tokio-io = "0.1"
