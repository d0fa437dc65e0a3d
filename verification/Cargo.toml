[package]
name = "distributed_neural_network"
version = "0.1.0"
edition = "2021"
publish = false

[dependencies]
base64 = "=0.21.7"
chrono = "=0.4.45"
config = { version = "0.13", default-features = false, features = ["json"] }
futures-util = "=0.3.34"
hmac = "=0.12.1"
jsonwebtoken = "=8.3.0"
lapin = { version = "=2.5.5", default-features = false }
prometheus = { version = "=0.13.4", default-features = false }
rand = "=0.8.8"
regex = "=1.13.1"
serde = { version = "=1.0.229", features = ["derive"] }
serde_json = "=1.0.154"
sha2 = "=0.10.9"
tokio = { version = "=1.54.1", features = ["full"] }
tracing = "=0.1.44"
tracing-subscriber = { version = "=0.3.23", features = ["env-filter"] }
uuid = { version = "=1.29.0", features = ["v4", "serde"] }
warp = { version = "=0.3.7", default-features = false }
