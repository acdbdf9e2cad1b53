[package]
name = "zdns"
version = "0.1.0"
edition = "2021"
publish = false

[dependencies]
anyhow = "1"
async-channel = "1"
async-trait = "0.1"
bytes = "1"
domain = { version = "0.7", features = ["bytes"] }
log = "0.4"
pretty_env_logger = "0.5"
reqwest = { version = "0.11", default-features = false, features = ["rustls-tls"] }
serde = { version = "1", features = ["derive"] }
serde_json = "1"
stretto = { version = "0.8", features = ["async"] }
tokio = { version = "1", features = ["full"] }
url = "2"
