[package]
name = "shipcat"
version = "0.1.0"
edition = "2021"
publish = false

[dependencies]
regex = "1"
serde = { version = "1", features = ["derive"] }
serde_yaml = "0.8"
serde_json = "1"
rayon = "1"
size_format = "1"
generic-array = "0.12"
