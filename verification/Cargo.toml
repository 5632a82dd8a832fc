[package]
name = "nostr"
version = "0.1.0"
edition = "2021"
publish = false

[dependencies]
secp256k1 = { version = "0.20", features = ["rand-std"] }
serde = { version = "1", features = ["derive"] }
serde_json = "1"
sha2 = "0.9"
