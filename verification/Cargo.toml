[package]
name = "lidar"
version = "0.1.0"
edition = "2021"
publish = false

[dependencies]
futures = "0.3"
http-body-util = "0.1"
hyper = { version = "1", features = ["server", "http1"] }
hyper-tungstenite = "*"
hyper-util = { version = "0.1", features = ["tokio"] }
rppal = "*"
tokio = { version = "1", features = ["rt-multi-thread", "macros", "net", "sync"] }
tokio-tungstenite = "*"
