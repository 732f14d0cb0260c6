[package]
name = "hdn"
version = "0.1.0"
edition = "2021"
publish = false

[dependencies]
chrono = "*"
csv = "*"
env_logger = "*"
log = "*"
serde_json = "*"
threadpool = "*"
