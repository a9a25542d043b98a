[package]
name = "volt_client"
version = "0.1.0"
edition = "2021"
publish = false

[dependencies]
base64 = "0.22"
chrono = "0.4"
copypasta = "0.10"
crossterm = "0.28"
futures = "0.3"
futures-util = "0.3"
rand = "0.9"
ratatui = "0.29"
serde = { version = "1", features = ["derive"] }
serde_json = "1"
sha2 = "0.10"
tokio = { version = "1", features = ["full"] }
tokio-tungstenite = "0.26"
unicode-segmentation = "1"
x25519-dalek = { version = "2", features = ["static_secrets", "getrandom"] }
