[package]
name = "lrclib_api_rs"
version = "0.3.0"
edition = "2021"
publish = false

[dependencies]
url = "2"
http = "1"
serde = { version = "1", features = ["derive"] }
serde_json = "1"
thiserror = "*"
strum = { version = "*", features = ["derive"] }

[dev-dependencies]
