[package]
name = "suvarix"
version = "0.1.0"
edition = "2021"
publish = false

[dependencies]
aes-gcm = "0.10"
base64 = "0.22"
chrono = { version = "0.4", default-features = false, features = ["clock", "std"] }
hex = "0.4"
pbkdf2 = "0.12"
rand = "0.8"
sha2 = "0.10"
zeroize = "1"
serde = { version = "1", features = ["derive"] }
serde_json = "1"
csv = "1"
rusqlite = { version = "0.31", features = ["bundled"] }
thiserror = "1"
