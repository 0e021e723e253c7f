[package]
name = "renegade_dealer"
version = "0.1.0"
edition = "2021"
publish = false

[dependencies]
ark-bn254 = "=0.4.0"
ark-ff = "=0.4.2"
k256 = { version = "=0.13.4", features = ["ecdsa"] }
base64 = "=0.22.1"
rand = "=0.8.8"
serde = { version = "=1.0.229", features = ["derive"] }
serde_json = "=1.0.151"
uuid = { version = "=1.27.0", features = ["v4"] }
tokio = { version = "=1.53.2", features = ["full"] }
warp = "=0.3.7"
clap = { version = "=4.6.7", features = ["derive"] }
