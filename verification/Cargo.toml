[package]
name = "squawk"
version = "0.1.0"
edition = "2021"
publish = false

[dependencies]
memchr = "=2.8.3"
line-index = "0.1"
serde = { version = "=1.0.229", features = ["derive"] }
serde_plain = "=1.0.2"
