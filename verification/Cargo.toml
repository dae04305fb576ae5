[package]
name = "edf"
version = "0.1.0"
edition = "2021"
publish = false

[dependencies]
shellexpand = "*"
serde = { version = "*", features = ["derive"] }
serde_json = "*"
toml = "*"
jsonschema = "*"
