[package]
name = "engineio"
version = "0.1.0"
edition = "2021"
publish = false

[dependencies]
axum = { version = "=0.8.9", features = ["ws"] }
base64 = "=0.13.1"
thiserror = "=1.0.69"
tokio = { version = "=1.54.1", features = ["net"] }
tungstenite = "=0.29.0"
