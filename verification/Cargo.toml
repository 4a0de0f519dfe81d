[package]
name = "newsletter"
version = "0.1.0"
edition = "2021"
publish = false

[dependencies]
hmac = "0.12"
sha2 = "0.10"
urlencoding = "2"
htmlescape = "0.3"
base64 = "0.13"
argon2 = "0.5"
rand = "*"
uuid = { version = "1", features = ["v4"] }
serde = { version = "1", features = ["derive"] }
secrecy = "0.10"
thiserror = "2"
anyhow = "1"
tracing = "0.1"
axum = "0.8"
tokio = { version = "1", features = ["macros", "rt-multi-thread", "net"] }
tower-http = { version = "0.6", features = ["trace"] }
sqlx = { version = "0.8", default-features = false, features = ["runtime-tokio", "postgres", "uuid", "chrono"] }
reqwest = { version = "0.12", default-features = false, features = ["json"] }
