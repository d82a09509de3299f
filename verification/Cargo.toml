[package]
name = "herdr_native"
version = "0.1.0"
edition = "2021"
publish = false

[dependencies]
bytes = "1"
crossterm = "0.29"
schemars = "1"
serde = { version = "1", features = ["derive"] }
serde_json = "1"
sha2 = "0.10"
