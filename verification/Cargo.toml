[package]
name = "purple_core"
version = "0.1.0"
edition = "2021"
publish = false

[dependencies]
blake2 = "0.10"
ed25519-dalek = "2"
hex = "0.4"
rand = "0.8"
libloading = "0.8"
tokio = { version = "1", features = ["rt", "rt-multi-thread", "time", "sync", "macros"] }
