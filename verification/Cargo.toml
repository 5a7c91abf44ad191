[package]
name = "o3k-network"
version = "0.1.0"
edition = "2021"
publish = false

[dependencies]
serde = { version = "=1.0.229", features = ["derive"] }
serde_json = "=1.0.154"
sha2 = "=0.10.9"
thiserror = "=2.0.21"
tokio = { version = "1", features = ["sync", "time"] }
uuid = { version = "=1.29.0", features = ["v5", "v7", "serde"] }
