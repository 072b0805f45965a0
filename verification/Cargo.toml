[package]
name = "claude_chat"
version = "0.1.0"
edition = "2021"
publish = false

[dependencies]
anyhow = "1"
base64 = "0.22"
metrics = "0.24"
metrics-exporter-prometheus = { version = "*", default-features = false, features = ["http-listener"] }
serde = { version = "1", features = ["derive"] }
toml = "*"
tracing = "0.1"
tracing-subscriber = { version = "0.3", features = ["json", "env-filter"] }
age = { version = "*", default-features = false }

[dev-dependencies]
regex = "1"
