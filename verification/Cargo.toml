[package]
name = "eid_reader"
version = "0.1.0"
edition = "2021"
publish = false

[dependencies]
base64 = "0.13"
cryptoki = "0.4"
rocket = "0.5"
serde = { version = "1", features = ["derive"] }
serde_json = "1"
