[package]
name = "manga_vault_plugins"
version = "0.1.0"
edition = "2021"
publish = false

[dependencies]
urlencoding = "2"
sha2 = "0.10"
tar = "0.4"
flate2 = "1"
base64 = "0.22"
aes-gcm = "0.10"
serde = { version = "1", features = ["derive"] }
serde_json = "1"
toml = "0.8"
chrono = "0.4"
wit-bindgen = "0.36"
