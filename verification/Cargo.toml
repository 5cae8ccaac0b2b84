[package]
name = "team_stats"
version = "0.1.0"
edition = "2021"
publish = false

[dependencies]
anyhow = "1"
bytes = "1"
google-cloud-bigquery = "=0.15.0"
google-cloud-storage = "=0.24.0"
http-body-util = "0.1"
hyper = { version = "1", features = ["full"] }
hyper-util = { version = "0.1", features = ["full"] }
lazy_static = "1"
serde = { version = "1", features = ["derive"] }
serde_json = "=1.0.154"
time = { version = "=0.3.55", features = ["serde", "formatting", "parsing"] }
tokio = { version = "1", features = ["full"] }
