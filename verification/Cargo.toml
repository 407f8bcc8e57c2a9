[package]
name = "hyper_tarot"
version = "0.1.0"
edition = "2021"
publish = false

[dependencies]
base64ct = { version = "=1.8.3", features = ["alloc"] }
lru = { version = "=0.18.5", default-features = false }
sha2 = "=0.10.9"
url = "=2.5.8"
uuid = { version = "=1.27.0", features = ["v4"] }
