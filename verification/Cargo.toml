[package]
name = "lovshot"
version = "0.1.0"
edition = "2021"
publish = false

[dependencies]
gif = "*"
image = { version = "*", default-features = false, features = ["png", "jpeg"] }
base64 = "*"
serde = { version = "*", features = ["derive"] }
serde_json = "*"
chrono = "*"
dirs = "*"
