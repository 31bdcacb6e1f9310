[package]
name = "eve_rs"
version = "0.1.0"
edition = "2021"
publish = false

[dependencies]
base64 = "0.13"
chrono = "0.4"
futures = "0.3"
handlebars = "4"
hyper = { version = "0.14", features = ["full"] }
log = "0.4"
serde = "1"
serde_json = "1"
serde_qs = "*"
sha1 = "0.10"
tokio = { version = "1", features = ["full"] }
tokio-tungstenite = "*"
