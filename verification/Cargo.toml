[package]
name = "entail"
version = "0.1.0"
edition = "2021"
publish = false

[dependencies]
rand = "0.9"
serde_json = "1"
google-datastore1 = "6"
tokio = { version = "1", features = ["time", "rt"] }
hyper-rustls = "0.27"
hyper-util = { version = "0.1", features = ["client-legacy", "http1", "tokio"] }
chrono = "0.4"
