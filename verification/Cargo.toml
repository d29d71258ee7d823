[package]
name = "dino"
version = "0.1.0"
edition = "2021"
publish = false

[dependencies]
anyhow = "1"
axum = "=0.7.9"
clap = { version = "4", features = ["derive"] }
notify = "*"
notify-debouncer-mini = "*"
oneshot = { version = "=0.2.1", features = ["std", "async"] }
serde = { version = "1", features = ["derive"] }
serde_yaml = "*"
tokio = { version = "1", features = ["full"] }
tokio-stream = "*"
tracing = "*"
tracing-subscriber = "*"
