[package]
name = "zugriff"
version = "0.1.0"
edition = "2021"
publish = false

[dependencies]
sha3 = "0.10"
base64 = "0.22"
tar = "0.4"
flate2 = "1"
size = "*"

[dev-dependencies]
bincode = "1"
serde_json = "1"
