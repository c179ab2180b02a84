[package]
name = "aelira"
version = "0.1.0"
edition = "2021"
publish = false

[dependencies]
aes-gcm = "=0.10.3"
base64 = "=0.22.1"
bytes = "1"
chrono = "=0.4.45"
futures-util = "0.3"
rand = "=0.9.5"
regex = "=1.13.1"
serde = { version = "1", features = ["derive"] }
serde_json = "1"
symphonia = "0.5"
sysinfo = "*"
tokio = { version = "1", features = ["full"] }
tokio-tungstenite = "*"
tokio-util = { version = "0.7", features = ["codec"] }
toml = "*"
warp = { version = "*", features = ["server", "websocket"] }
