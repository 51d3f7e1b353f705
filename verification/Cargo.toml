[package]
name = "host_metrics"
version = "0.1.0"
edition = "2021"
publish = false

[dependencies]
anyhow = "1"
axum = "0.7"
clap = { version = "4", features = ["derive"] }
env_logger = "0.11"
log = "0.4"
prometheus = { version = "0.14", default-features = false }
tokio = { version = "1", features = ["macros", "net", "rt-multi-thread", "time"] }
