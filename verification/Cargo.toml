[package]
name = "canon_core"
version = "0.2.0"
edition = "2021"
publish = false

[dependencies]
serde = { version = "1", features = ["derive"] }
serde_json = "1"
serde_yaml = "0.9"
toml = "0.8"
walkdir = "2"

[dev-dependencies]
tempfile = "3"
