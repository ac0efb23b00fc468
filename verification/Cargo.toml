[package]
name = "zigbee_stack"
version = "0.1.0"
edition = "2021"
publish = false

[dependencies]
heapless = "0.8"
embassy-sync = "0.6"
esp-radio = { version = "*", default-features = false }
log = "0.4"
