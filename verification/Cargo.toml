[package]
name = "prism_agent"
version = "0.1.0"
edition = "2021"
publish = false

[dependencies]
aes-gcm = "0.10"
base64 = "0.22"
rand = "0.8"
dirs = "5"
sha2 = "0.10"
urlencoding = "2"
mime_guess = "2"
serde = { version = "1", features = ["derive"] }
serde_json = "1"
