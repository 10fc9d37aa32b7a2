[package]
name = "cloudflare_auth"
version = "0.1.0"
edition = "2021"
publish = false

[dependencies]
base64 = "0.22"
getrandom = "0.2"
hmac = "0.12"
pbkdf2 = "0.12"
sha2 = "0.10"
serde = { version = "1", features = ["derive"] }
serde_json = "1"
url = "2"
image = { version = "0.25", default-features = false, features = ["jpeg", "png", "gif", "webp"] }
wasm-bindgen = "0.2"
worker = { version = "*", features = ["d1"] }
