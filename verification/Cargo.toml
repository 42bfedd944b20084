[package]
name = "captcha_gate"
version = "0.1.0"
edition = "2021"
publish = false

[dependencies]
axum = "0.6"
captcha = { version = "*", default-features = false }
chrono = "0.4"
dotenv = "0.15"
http = "0.2"
lettre = { version = "0.10", default-features = false, features = ["builder", "smtp-transport", "tokio1", "tokio1-rustls-tls"] }
serde = { version = "1", features = ["derive"] }
serde_json = "1"
tokio = { version = "1", features = ["macros", "rt-multi-thread"] }
tower = "0.4"
tower-http = { version = "0.4", features = ["cors", "trace"] }
tracing = "0.1"
tracing-subscriber = { version = "0.3", features = ["env-filter"] }
