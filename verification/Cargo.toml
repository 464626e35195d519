[package]
name = "mixshoes"
version = "0.1.0"
edition = "2021"
publish = false

[dependencies]
regex = "*"
csv = "*"
serde = { version = "*", features = ["derive"] }
serde_json = "*"
