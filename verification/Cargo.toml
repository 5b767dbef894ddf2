[package]
name = "metadata_guardian"
version = "0.1.0"
edition = "2021"
publish = false

[dependencies]
regex = "1"
rayon = "1"
serde = { version = "1", features = ["derive"] }
serde_yaml = "0.9"
