[package]
name = "away"
version = "0.1.0"
edition = "2021"
publish = false

[dependencies]
argon2 = "=0.5.3"
rand = "=0.8.8"
hmac = "=0.12.1"
sha1 = "=0.10.7"
base64 = "=0.22.1"
serde = { version = "=1.0.229", features = ["derive"] }
serde_json = "=1.0.154"
axum = { version = "=0.7.9", features = ["ws"] }
tokio = { version = "=1.54.1", features = ["full"] }
tower-http = { version = "=0.5.2", features = ["trace"] }
futures-util = "=0.3.34"
tracing = "=0.1.44"
tracing-subscriber = { version = "=0.3.23", features = ["env-filter"] }
anyhow = "=1.0.104"
tokio-tungstenite = "=0.26.2"
clap = { version = "=4.6.7", features = ["derive", "env"] }
bytes = "=1.12.1"
openh264 = "=0.6.6"
egui = "=0.29.1"
openh264-sys2 = "=0.6.6"
webrtc = "=0.12.0"
enigo = "=0.2.1"
scrap = "=0.5.0"
