[package]
name = "lycaon_backend"
version = "0.1.0"
edition = "2021"
publish = false

[dependencies]
ring = "*"
uuid = { version = "*", features = ["v4"] }
