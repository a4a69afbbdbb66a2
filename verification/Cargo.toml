[package]
name = "nvr_json"
version = "0.1.0"
edition = "2021"
publish = false

[dependencies]
base64 = "0.22"
failure = "0.1"
serde = { version = "1", features = ["derive"] }
serde_json = "1"
uuid = "1"
