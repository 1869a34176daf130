[package]
name = "fuzz_core"
version = "0.1.0"
edition = "2021"
publish = false

[dependencies]
hashbrown = "=0.17.1"
serde = { version = "=1.0.229", features = ["derive"] }
serde_json = "*"
