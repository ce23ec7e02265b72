[package]
name = "brands"
version = "0.1.0"
edition = "2021"
publish = false

[dependencies]
hmac = "0.12"
num-bigint = { version = "0.4", features = ["rand", "serde"] }
rand = "0.8"
serde = { version = "1", features = ["derive"] }
sha2 = "0.10"
