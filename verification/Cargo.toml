[package]
name = "dd_delivery"
version = "0.1.0"
edition = "2021"
publish = false

[dependencies]
base64 = "0.13"
rand = "0.8"
uuid = { version = "1", features = ["v4"] }
http = "1"
serde = { version = "1", features = ["derive"] }
toml = "0.8"

[dev-dependencies]
serde_json = "1"
chrono = "0.4"
