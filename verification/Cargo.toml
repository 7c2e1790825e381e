[package]
name = "john_wick_parse"
version = "0.1.0"
edition = "2021"
publish = false

[dependencies]
aes-soft = "0.6"
block-modes = "0.7"
bit-vec = "0.6"
bitreader = "0.3"
byteorder = "1"
flate2 = "1"
hex = "0.4"
image = { version = "0.23", default-features = false, features = ["png", "dxt"] }
serde = { version = "1", features = ["derive"] }
serde_json = "1"
lazy_static = "1"
libloading = "0.6"
erased-serde = "0.3"
