[package]
name = "webapp_init_data"
version = "0.1.0"
edition = "2021"
publish = false

[dependencies]
form_urlencoded = "1"
hmac-sha256 = "1"
serde_json = "1"
