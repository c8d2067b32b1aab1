[package]
name = "folio_metadata"
version = "0.1.0"
edition = "2021"
publish = false

[dependencies]
unicode-normalization = "=0.1.26"
base64 = "=0.22.1"
rand = "=0.8.8"
url = "=2.5.8"
chrono = { version = "=0.4.45", default-features = false, features = ["std", "clock"] }
serde = { version = "=1.0.229", features = ["derive"] }
serde_json = "=1.0.154"
image = { version = "0.25", default-features = false, features = ["jpeg", "png", "webp"] }
