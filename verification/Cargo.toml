[package]
name = "notebud_websocket"
version = "0.1.0"
edition = "2021"
publish = false

[dependencies]
anyhow = "1"
bson = "2"
chrono = "0.4"
dotenv = "0.15"
env_logger = "0.10"
futures-util = "0.3"
hyper = { version = "0.14", features = ["full"] }
hyper-tungstenite = "0.11"
jsonwebtoken = "9"
lazy_static = "1"
log = "0.4"
mongodb = "2"
serde = { version = "1", features = ["derive"] }
serde_json = "1"
tokio = { version = "1", features = ["full"] }
tokio-tungstenite = "0.20"
urlencoding = "2"
uuid = { version = "1", features = ["v4"] }
