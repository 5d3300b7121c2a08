[package]
name = "proxy-rs"
version = "0.1.0"
edition = "2021"
publish = false

[dependencies]
bytes = "0.5"
clap = "2"
env_logger = "*"
log = "0.4"
openssl = "0.10"
tokio = { version = "0.2", features = ["full"] }
