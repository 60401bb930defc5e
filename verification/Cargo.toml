[package]
name = "waterpi-sprinkler"
version = "0.1.0"
edition = "2021"
publish = false

[dependencies]
anyhow = "=1.0.104"
axum = "=0.8.9"
chrono = "=0.4.45"
embedded-graphics = "=0.8.2"
reqwest = { version = "=0.12.28", default-features = false, features = ["json"] }
rppal = { version = "=0.22.1", features = ["hal"] }
serde = { version = "=1.0.229", features = ["derive"] }
serde_json = "=1.0.154"
ssd1306 = "=0.10.0"
tokio = { version = "=1.54.1", features = ["full"] }
toml = "=1.1.8"
tracing = "=0.1.44"
tracing-subscriber = { version = "=0.3.23", features = ["env-filter"] }
