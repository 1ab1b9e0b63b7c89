[package]
name = "matrix_exchange"
version = "0.1.0"
edition = "2021"
publish = false

[dependencies]
aes-ctr = "0.6"
base64 = "0.13"
getrandom = "0.2"
hmac = "0.11"
pbkdf2 = { version = "0.8", default-features = false }
sha2 = "0.9"
qrcode = { version = "0.12", default-features = false }
image = { version = "0.23", default-features = false }
rqrr = "0.4"
serde = { version = "1", features = ["derive"] }
serde_json = "1"
