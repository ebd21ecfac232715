[package]
name = "beam"
version = "0.1.0"
edition = "2021"
publish = false

[dependencies]
serde_json = { version = "=1.0.154", features = ["preserve_order"] }
regex = "=1.13.1"
reqwest = { version = "0.12", default-features = false, features = ["multipart"] }
