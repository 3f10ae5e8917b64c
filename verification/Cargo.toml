[package]
name = "reddb"
version = "0.3.0"
edition = "2021"
publish = false

[dependencies]
uuid = { version = "1", features = ["v4", "serde"] }
serde = { version = "1", features = ["derive"] }
serde_json = "1"
ron = "0.8"
bincode = "1"
serde_yaml = "0.8"
tokio = { version = "1", features = ["fs", "io-util", "sync", "rt", "rt-multi-thread"] }
thiserror = "1"
async-trait = "0.1"
