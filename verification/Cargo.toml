[package]
name = "mock_http_connector"
version = "0.1.0"
edition = "2021"
publish = false

[dependencies]
colored = "2"
httparse = "1"
hyper = { version = "0.14", features = ["client", "http1"] }
itertools = "0.12"
serde = "1"
serde_json = "1"
thiserror = "1"
tokio = "1"
