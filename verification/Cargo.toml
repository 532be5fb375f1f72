[package]
name = "upk_header"
version = "0.1.0"
edition = "2021"
publish = false

[dependencies]
omnom = "*"
serde = { version = "1", features = ["derive"] }
serde_yaml = "*"
