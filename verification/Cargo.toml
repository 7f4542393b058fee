[package]
name = "anda_engine"
version = "0.1.0"
edition = "2021"
publish = false

[dependencies]
anda_core = "=0.5.0"
bytes = "1"
candid = "0.10"
http = "1"
reqwest = "0.12"
serde = { version = "1", features = ["derive"] }
serde_bytes = "0.11"
serde_json = "1"
