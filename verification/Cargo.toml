[package]
name = "web_dispatch"
version = "0.1.0"
edition = "2021"
publish = false

[dependencies]
crossbeam-channel = "0.5"
serde = { version = "1", features = ["derive"] }
serde_json = "1"
url = "2"
hyper = "0.13"
tokio = { version = "0.2", features = ["full"] }
