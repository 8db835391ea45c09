[package]
name = "qrstats"
version = "0.1.0"
edition = "2021"
publish = false

[dependencies]
serde = { version = "1", features = ["derive"] }
serde_json = "1"
sha2 = "0.10"
url = "2"
uuid = { version = "1", features = ["v4"] }
worker = "*"
