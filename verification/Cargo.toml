[package]
name = "tickets"
version = "0.1.0"
edition = "2021"
publish = false

[dependencies]
base64 = "=0.13.1"
chrono = "=0.4.45"
image = "=0.23.14"
qrcode = "=0.12.0"
reqwest = { version = "=0.11.27", default-features = false, features = ["blocking", "json", "rustls-tls"] }
serde = { version = "=1.0.229", features = ["derive"] }
uuid = { version = "=1.27.0", features = ["v4"] }
validator = "=0.16.1"
