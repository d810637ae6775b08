[package]
name = "shikataganai"
version = "0.1.0"
edition = "2021"
publish = false

[dependencies]
bevy = { version = "=0.9.1", default-features = false }
base64 = "=0.13.1"
serde = { version = "=1.0.229", features = ["derive"] }
bincode = "=1.3.3"
flate2 = "=1.1.10"
noise = "=0.7.0"
bevy_renet = "=0.0.6"
futures-lite = "=1.13.0"
percent-encoding = "2"
