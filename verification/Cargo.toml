[package]
name = "td3"
version = "0.1.0"
edition = "2021"
publish = false

[dependencies]
anyhow = "1"
serde = "1"
serde_json = { version = "1", features = ["float_roundtrip"] }
tch = "*"
