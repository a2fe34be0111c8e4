[package]
name = "euclidon"
version = "0.1.0"
edition = "2021"
publish = false

[dependencies]
axum = "*"
axum-extra = { version = "*", features = ["cookie"] }
base64 = "=0.23.1"
chrono = "*"
dotenvy = "*"
hmac = "=0.12.1"
pbkdf2 = "=0.12.2"
rand_chacha = "=0.9.0"
rand_core = { version = "=0.9.5", features = ["os_rng"] }
serde = { version = "*", features = ["derive"] }
serde_json = "*"
sha3 = "=0.10.9"
tera = "*"
thiserror = "*"
tokio = { version = "*", features = ["macros", "net", "rt-multi-thread", "time"] }
