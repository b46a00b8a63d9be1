[package]
name = "worker_core"
version = "0.1.0"
edition = "2021"
publish = false

[dependencies]
serde_json = "1"
tokio = { version = "1", features = ["full"] }
sqlx = { version = "0.8", features = ["runtime-tokio", "postgres", "chrono", "uuid"] }
chrono = "0.4"
uuid = { version = "1", features = ["v4"] }
prometheus = "0.13"
tracing = "0.1"
anyhow = "1"
