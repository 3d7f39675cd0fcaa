[package]
name = "flick"
version = "0.1.0"
edition = "2021"
publish = false

[dependencies]
regex = "1"
base64 = "0.22"
serde = { version = "1", features = ["derive"] }
serde_json = "1"
tokio = { version = "1", features = ["full"] }
tokio-tungstenite = "*"
futures-util = "0.3"
hidapi = "2"
auto-launch = "*"
dirs = "*"
open = "*"
