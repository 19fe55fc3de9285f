[package]
name = "authcore"
version = "0.1.0"
edition = "2021"
publish = false

[dependencies]
hex = "0.4"
url = "2"
hmac = "0.12"
sha2 = "0.10"
bcrypt = "*"
getrandom = "0.2"
uuid = "1"
chrono = "0.4"
toml = "*"
serde = { version = "1", features = ["derive"] }
