[package]
name = "club_core"
version = "0.1.0"
edition = "2021"
publish = false

[dependencies]
rust-crypto = "=0.2.36"
data-encoding = "=2.11.1"
serde = { version = "=1.0.229", features = ["derive"] }
serde_json = "=1.0.151"

[dev-dependencies]
pbkdf2 = "=0.13.0"
hmac = "=0.13.0"
sha2 = "=0.11.0"
