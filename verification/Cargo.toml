[package]
name = "pipo"
version = "0.1.0"
edition = "2021"
publish = false

[dependencies]
anyhow = "=1.0.104"
axum = "=0.7.9"
bytes = "=1.12.1"
deadpool-sqlite = "=0.8.1"
env_logger = "=0.11.11"
log = "=0.4.35"
rand = "=0.8.8"
regex = "=1.13.1"
ruma = { version = "=0.10.1", features = ["appservice-api-s", "client-api-s", "events"] }
serde = { version = "=1.0.229", features = ["derive"] }
serde_json = "=1.0.154"
serde_urlencoded = "=0.7.1"
serde_yaml = "=0.9.34"
tokio = { version = "=1.54.1", features = ["rt-multi-thread", "macros", "sync", "net"] }
tokio-stream = { version = "=0.1.19", features = ["sync"] }
