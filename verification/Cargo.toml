[package]
name = "xors_auth"
version = "0.1.0"
edition = "2021"
publish = false

[dependencies]
base64 = "0.22"
bcrypt = "0.15"
captcha = { version = "0.0.9", default-features = false }
chrono = "0.4"
hmac = "0.12"
sha2 = "0.10"
uuid = { version = "1", features = ["v4"] }
salvo = { version = "*", features = ["oapi"] }
sea-orm = { version = "0.12", default-features = false }
serde = { version = "1", features = ["derive"] }
