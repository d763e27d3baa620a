[package]
name = "kb_port"
version = "0.1.0"
edition = "2021"
publish = false

[dependencies]
anyhow = "1"
askama = "*"
serde = { version = "1", features = ["derive"] }
