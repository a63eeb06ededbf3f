[package]
name = "tyl_qdrant_adapter"
version = "0.1.0"
edition = "2021"
publish = false

[dependencies]
chrono = "0.4"
serde = { version = "1", features = ["derive"] }
serde_json = "1"
qdrant-client = "*"
tokio = { version = "1", features = ["rt"] }
