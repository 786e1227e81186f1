[package]
name = "tailpipe"
version = "0.1.0"
edition = "2021"
publish = false

[dependencies]
anyhow = "1"
env_logger = "0.11"
log = "0.4"
ratatui = "0.29"
russh = { version = "0.54", default-features = false, features = ["ring", "rsa", "flate2"] }
serde = { version = "1", features = ["derive"] }
serde_json = "1"
tokio = { version = "1", features = ["full"] }
toml = "0.8"
