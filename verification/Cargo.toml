[package]
name = "firmware_common"
version = "0.1.0"
edition = "2021"
publish = false

[dependencies]
bitvec = { version = "=1.1.1", default-features = false, features = ["alloc"] }
embedded-io-async = "=0.6.1"
heapless = "=0.8.0"
num-traits = { version = "=0.2.19", default-features = false }
lora-modulation = "=0.1.5"
crc = "=3.4.0"
embassy-sync = "=0.6.2"
embassy-futures = "=0.1.2"
