[package]
name = "vmc"
version = "0.1.0"
edition = "2021"
publish = false

[dependencies]
glam = "*"
serde = { version = "*", features = ["derive"] }
tokio = { version = "*", features = ["net"] }
tokio-stream = "*"
