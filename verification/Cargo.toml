[package]
name = "chat_common"
version = "0.1.0"
edition = "2021"
publish = false

[dependencies]
failure = "=0.1.8"
futures = "=0.1.31"
serde_json = { version = "=1.0.154", features = ["preserve_order"] }
slog = "=2.8.2"
slog-async = "=2.8.0"
slog-term = "=2.9.2"
structopt = "=0.2.18"
tokio = "=0.1.22"
