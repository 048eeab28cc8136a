[package]
name = "yt_backup"
version = "0.1.0"
edition = "2021"
publish = false

[dependencies]
anyhow = "*"
chrono = "*"
clap = { version = "*", features = ["derive"] }
dirs = "*"
serde = { version = "*", features = ["derive"] }
toml = "*"
tracing = "*"
tracing-appender = "*"
tracing-subscriber = "*"
