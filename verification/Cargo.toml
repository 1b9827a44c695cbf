[package]
name = "blendbar"
version = "0.1.0"
edition = "2021"
publish = false

[dependencies]
base64 = "=0.22.1"
hex = "=0.4.3"
hmac = "=0.12.1"
sha2 = "=0.10.9"
chrono = { version = "=0.4.45", default-features = false, features = ["std", "clock"] }
rust_decimal = "=1.43.0"
serde = { version = "=1.0.229", features = ["derive"] }
serde_json = "=1.0.154"
uuid = { version = "=1.29.0", features = ["v4"] }
async-trait = "=0.1.92"
tokio = { version = "=1.54.1", features = ["rt-multi-thread", "macros", "time", "sync"] }
tracing = "=0.1.44"
reqwest = { version = "=0.12.28", default-features = false, features = ["json", "rustls-tls"] }
qrcode = { version = "0.14", default-features = false, features = ["svg"] }
