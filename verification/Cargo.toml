[package]
name = "payments"
version = "0.1.0"
edition = "2021"
publish = false

[dependencies]
csv = "*"
serde = { version = "1", features = ["derive"] }
log = "*"
env_logger = "*"
