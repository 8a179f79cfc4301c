[package]
name = "federation_config"
version = "0.1.0"
edition = "2021"
publish = false

[dependencies]
anyhow = "1"
hbbft = "=0.1.1"
hex = "0.4"
rand = "0.6"
rcgen = "0.10"
serde = { version = "1", features = ["derive"] }
serde_json = "1"
tokio-rustls = "0.23"
tracing = "0.1"
url = "2"
