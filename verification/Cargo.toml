[package]
name = "clash-android-ffi"
version = "0.1.0"
edition = "2021"
publish = false

[dependencies]
urlencoding = "2"
serde = { version = "1", features = ["derive"] }
serde_json = "1"
hyper = { version = "1", features = ["client", "http1"] }
hyper-util = { version = "0.1", features = ["client-legacy", "tokio", "http1"] }
hyperlocal = "0.9"
http-body-util = "0.1"
tokio = { version = "1", features = ["rt-multi-thread", "fs"] }
tokio-stream = "0.1"
reqwest = { version = "0.12", default-features = false, features = ["rustls-tls", "stream"] }
eyre = "0.6"
tracing = "0.1"
tracing-subscriber = { version = "0.3", features = ["env-filter"] }
tracing-error = "0.2"
