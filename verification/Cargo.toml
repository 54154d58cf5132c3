[package]
name = "jumppad"
version = "0.1.0"
edition = "2021"
publish = false

[dependencies]
serde = { version = "1", features = ["derive"] }
toml = "*"
log = "0.4"
notify = "*"
tokio = { version = "1", features = ["fs"] }
env_logger = "*"
iced = { version = "*", default-features = false }
