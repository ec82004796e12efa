[package]
name = "logshard"
version = "0.1.0"
edition = "2021"
publish = false

[dependencies]
anyhow = "1"
chrono = { version = "0.4", default-features = false, features = ["std"] }
clap = { version = "4", features = ["derive"] }
flate2 = "1"
humantime = "2"
num-format = { version = "0.4", features = ["with-system-locale"] }
serde_json = "1"
