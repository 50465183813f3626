[package]
name = "crypto_converter"
version = "0.1.0"
edition = "2021"
publish = false

[dependencies]
alloy-primitives = { version = "*", default-features = false, features = ["std"] }
anyhow = "1"
arkecosystem-crypto = "*"
log = "0.4"
rust_decimal = { version = "1", default-features = false, features = ["std", "maths"] }
