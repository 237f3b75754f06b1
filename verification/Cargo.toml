[package]
name = "beerus_core"
version = "0.1.0"
edition = "2021"
publish = false

[dependencies]
ethabi = "18"
starknet-crypto = "0.6"
starknet = "0.9"
tokio = { version = "1", features = ["sync", "rt", "time", "macros"] }
eyre = "0.6"
tracing = "0.1"
reqwest = { version = "0.11", features = ["json"] }
serde = { version = "1", features = ["derive"] }
serde_json = "1"
