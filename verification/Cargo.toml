[package]
name = "aidoku_sources"
version = "0.1.0"
edition = "2021"
publish = false

[dependencies]
aes = "=0.8.4"
base64 = "=0.22.1"
md5 = "=0.7.0"
sha2 = "=0.10.9"
miniz_oxide = "=0.8.9"
serde = { version = "=1.0.229", features = ["derive"] }
serde_json = "=1.0.154"
regex = "=1.13.1"
chrono = { version = "=0.4.45", default-features = false, features = ["alloc"] }
chinese-number = "*"
