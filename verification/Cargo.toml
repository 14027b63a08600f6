[package]
name = "werun_core"
version = "0.1.0"
edition = "2021"
publish = false

[dependencies]
urlencoding = "*"
chrono = "*"
anyhow = "*"
dirs = "*"
log = "*"
env_logger = "*"
serde = { version = "*", features = ["derive"] }
serde_json = "*"
