[package]
name = "rustcloud"
version = "0.1.0"
edition = "2021"
publish = false

[dependencies]
sha2 = "=0.10.9"
uuid = { version = "=1.29.0", features = ["v4", "serde"] }
chrono = { version = "=0.4.45", features = ["serde"] }
serde = { version = "=1.0.229", features = ["derive"] }
serde_json = "=1.0.154"
thiserror = "=1.0.69"
anyhow = "=1.0.104"
toml = "=0.8.23"
tokio = { version = "=1.54.1", features = ["full"] }
axum = "=0.8.9"
notify = "=6.1.1"
reqwest = { version = "=0.12.28", default-features = false, features = ["json"] }
clap = { version = "=4.6.7", features = ["derive"] }
dirs = "=5.0.1"
tracing = "=0.1.44"
tracing-subscriber = { version = "=0.3.23", features = ["env-filter"] }
tracing-appender = "=0.2.5"
utoipa = "=5.5.0"
utoipa-swagger-ui = { version = "=9.0.2", features = ["axum", "vendored"] }
