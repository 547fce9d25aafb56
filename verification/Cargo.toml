[package]
name = "captra"
version = "0.1.0"
edition = "2021"
publish = false

[dependencies]
base64 = "0.22"
ed25519-dalek = { version = "2", features = ["rand_core"] }
glob = "0.3"
rand = "0.8"
serde_json = "1"
sha2 = "0.10"
tracing = "0.1"
tracing-subscriber = "0.3"
