[package]
name = "quick_socket"
version = "0.1.0"
edition = "2021"
publish = false

[dependencies]
json = "0.12"
uuid = { version = "1", features = ["v4"] }
tungstenite = "0.20"
neon = "1"
lazy_static = "1"
