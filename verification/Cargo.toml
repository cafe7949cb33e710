[package]
name = "nca_core"
version = "0.1.0"
edition = "2021"
publish = false

[dependencies]
regex = "1"
serde = { version = "1", features = ["derive"] }
serde_json = "1"
thiserror = "2"
tokio = { version = "1", features = ["fs", "process", "io-util", "time", "sync", "rt"] }
tracing = "0.1"
anyhow = "1"
