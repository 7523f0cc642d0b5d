[package]
name = "cornchan"
version = "0.1.0"
edition = "2021"
publish = false

[dependencies]
anyhow = "*"
axum = "=0.8.9"
axum_typed_multipart = "=0.16.7"
image = { version = "=0.24.9", features = ["webp-encoder"] }
nanoid = "=0.5.0"
redis = { version = "=1.7.1", features = ["tokio-comp"] }
serde = { version = "*", features = ["derive"] }
serde_json = "*"
sha3 = "=0.12.0"
tempfile = "*"
tera = "*"
tokio = { version = "*", features = ["macros", "rt-multi-thread"] }
tower-http = { version = "*", features = ["fs"] }
tracing = "*"
tracing-subscriber = "*"
