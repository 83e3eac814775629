[package]
name = "api_iota_streams"
version = "0.1.0"
edition = "2021"
publish = false

[dependencies]
base64 = "=0.13.1"
rand = "=0.7.3"
serde = { version = "=1.0.229", features = ["derive"] }
serde_json = "=1.0.154"
actix-web = "=4.18.1"
tokio = { version = "=1.54.1", features = ["rt", "macros"] }
futures = "=0.3.34"
validator = { version = "=0.16.1", features = ["derive"] }
rxrust = "0.15"
