[package]
name = "ruleengine"
version = "0.1.0"
edition = "2021"
publish = false

[dependencies]
dashmap = "*"
flume = "*"
tokio = { version = "*", features = ["full"] }
axum = "*"
rumqttc = "*"
rusqlite = { version = "*", features = ["bundled"] }
clap = { version = "*", features = ["derive"] }
serde = { version = "*", features = ["derive"] }
serde_json = "*"
serde_yaml = "*"
chrono = "*"
anyhow = "*"
tracing = "*"

[dev-dependencies]
regex = "*"
