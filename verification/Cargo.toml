[package]
name = "united_server"
version = "0.1.0"
edition = "2021"
publish = false

[dependencies]
aes-gcm = "=0.11.1"
base64 = "=0.23.1"
chrono = "=0.4.45"
ed25519-dalek = "=3.0.0"
hkdf = "=0.13.0"
hmac = "=0.13.0"
hostname = "=0.4.2"
jsonwebtoken = { version = "=11.1.0", features = ["rust_crypto"] }
rand = "=0.10.3"
serde_json = "*"
sha1 = "=0.11.0"
sha2 = "=0.11.0"
totp-rs = { version = "=6.0.0", features = ["otpauth"] }
uuid = { version = "=1.27.0", features = ["v7"] }

[dev-dependencies]
hex = "=0.4.3"
