[package]
name = "cmsis_pack"
version = "0.1.0"
edition = "2021"
publish = false

[dependencies]
quick-xml = "*"
serde = { version = "*", features = ["derive"] }
serde_json = "*"
reqwest = { version = "*", default-features = false, features = ["blocking"] }
