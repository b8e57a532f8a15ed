[package]
name = "future_retry"
version = "0.1.0"
edition = "2021"
publish = false

[dependencies]
futures = "0.3"
log = "0.4"
rand = "0.8"
tokio = { version = "1", features = ["time"] }
