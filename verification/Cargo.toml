[package]
name = "qqbot"
version = "0.1.0"
edition = "2021"
publish = false

[dependencies]
bytes = "=1.12.1"
miniz_oxide = "=0.9.1"
rand = "=0.8.8"
serde = { version = "=1.0.229", features = ["derive"] }
serde_json = "1"
p256 = { version = "=0.13.2", features = ["ecdh"] }
md5 = "=0.7.0"
jcers = "=0.1.2"
thiserror = "=1.0.69"
chrono = "=0.4.45"
