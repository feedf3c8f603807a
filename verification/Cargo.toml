[package]
name = "deconet"
version = "0.1.0"
edition = "2021"
publish = false

[dependencies]
aes = "0.7"
block-modes = "0.8"
rand = "0.8"
rand_chacha = "0.3"
sha2 = "0.10"
rust-argon2 = "2"
base64 = "0.13"
serde = { version = "1", features = ["derive"] }
serde_json = "1"
chrono = "0.4"
