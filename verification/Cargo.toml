[package]
name = "fpc_server"
version = "0.1.0"
edition = "2021"
publish = false

[dependencies]
rand = "0.8"
tokio = { version = "1", features = ["rt-multi-thread", "macros", "time", "net", "sync"] }
tokio-tungstenite = "*"
tungstenite = "*"
futures = "*"
futures-channel = "*"
futures-util = "*"
log = "*"
env_logger = "*"
anyhow = "*"
