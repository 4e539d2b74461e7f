[package]
name = "wrpc-transport-host"
version = "0.1.0"
edition = "2021"
publish = false

[dependencies]
anyhow = "=1.0.104"
bytes = "=1.12.1"
futures = "=0.3.34"
tokio = { version = "=1.54.1", features = ["io-util", "rt", "sync"] }
tokio-stream = "=0.1.19"
tokio-util = { version = "=0.7.20", features = ["io"] }
wrpc-transport = "=0.28.4"
