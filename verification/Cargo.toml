[package]
name = "proxy"
version = "0.1.0"
edition = "2021"
publish = false

[dependencies]
futures = "0.3"
socket2 = "0.5"
thiserror = "1"
tokio = { version = "1", features = ["net"] }
tokio-postgres = "0.7"
tracing = "0.1"
