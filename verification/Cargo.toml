[package]
name = "nexus_tui"
version = "0.1.0"
edition = "2021"
publish = false

[dependencies]
base64 = "0.22"
regex = "1"
emojis = "0.6"
image = { version = "0.25", default-features = false, features = ["png", "jpeg", "gif", "webp"] }
uuid = { version = "1", features = ["v4", "serde"] }
chrono = "0.4"
serde = { version = "1", features = ["derive"] }
serde_json = "1"
bincode = "1"
ratatui = "0.28"
crossterm = "0.28"
tokio = { version = "1", features = ["full"] }
tokio-util = { version = "0.7", features = ["codec"] }
tokio-rustls = "0.26"
rustls-pemfile = "2"
rustls-native-certs = "0.8"
futures = "0.3"
figlet-rs = "0.1"
rand = "0.8"
once_cell = "1"
tracing = "0.1"
