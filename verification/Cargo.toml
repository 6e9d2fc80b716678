[package]
name = "hitrelease"
version = "0.1.0"
edition = "2021"
publish = false

[dependencies]
anyhow = "1"
axum = { version = "0.7", features = ["multipart"] }
clap = { version = "4", features = ["derive"] }
csv = "1"
dashmap = "6"
indicatif = { version = "0.17", features = ["rayon"] }
new_string_template = "1"
qrcode = { version = "0.14", default-features = false, features = ["svg"] }
rayon = "1"
serde = { version = "1", features = ["derive"] }
serde_json = "1"
sqlx = { version = "0.8", default-features = false, features = ["sqlite", "runtime-tokio"] }
tokio = { version = "1", features = ["macros", "rt-multi-thread", "net"] }
tracing = "0.1"
tracing-subscriber = "0.3"
twox-hash = "2"
uuid = { version = "1", features = ["v4"] }
