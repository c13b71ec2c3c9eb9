[package]
name = "micro_http_async"
version = "0.1.0"
edition = "2021"
publish = false

[dependencies]
chunked_transfer = "1"
futures = "0.3"
regex = "1"
rustls-pemfile = "1"
tokio = { version = "1", features = ["full"] }
tokio-rustls = "0.23"
