[package]
name = "ingest_core"
version = "0.1.0"
edition = "2021"
publish = false

[dependencies]
chrono = "*"
dateparser = "*"
uuid = { version = "*", features = ["v4"] }
serde = { version = "*", features = ["derive"] }
serde_json = "*"
redis = "*"
