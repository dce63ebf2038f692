[package]
name = "caravan"
version = "0.1.0"
edition = "2021"
publish = false

[dependencies]
schemars = "1"
serde = { version = "1", features = ["derive"] }
serde_json = { version = "=1.0.154", features = ["preserve_order"] }
