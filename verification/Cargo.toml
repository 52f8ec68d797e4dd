[package]
name = "ton_sdk"
version = "0.1.0"
edition = "2021"
publish = false

[dependencies]
base64 = "=0.10.1"
crc16 = "=0.4.0"
hex = "=0.3.2"
ed25519-dalek = "=1.0.1"
serde = { version = "=1.0.229", features = ["derive"] }
serde_json = "=1.0.154"
futures = "=0.1.31"
