[package]
name = "archiva_bootstrap"
version = "0.1.0"
edition = "2021"
publish = false

[dependencies]
chrono = "0.4"
colored = "*"
axum = "*"
tokio = { version = "1", features = ["full"] }
ratatui = "*"

[dev-dependencies]
serde_yaml = "*"
