[package]
name = "rustpay"
version = "0.1.0"
edition = "2021"
publish = false

[dependencies]
p256 = { version = "0.13", features = ["ecdsa"] }
rand = "0.8"
rand_chacha = "0.3"
serde = "1"
