[package]
name = "waymark"
version = "0.1.0"
edition = "2021"
publish = false

[dependencies]
rand = "0.8"
sha3 = "0.10"
base64 = "0.22"
anyhow = "1"
bytes = "1"
chrono = "0.4"
serde = { version = "1", features = ["derive"] }
serde_json = "1"
serde_yaml = "0.9"
toml = "0.8"
uuid = { version = "1", features = ["v4", "serde"] }
warp = "0.3"
tokio = { version = "1", features = ["full"] }
