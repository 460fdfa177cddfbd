[package]
name = "tcp_ws_bridge"
version = "0.1.0"
edition = "2021"
publish = false

[dependencies]
async-channel = "2"
byteorder = "1"
chrono = "0.4"
futures = "0.3"
serde_json = "1"
tokio = { version = "1", features = ["full"] }
tokio-tungstenite = "0.26"
uuid = { version = "1", features = ["v4"] }
