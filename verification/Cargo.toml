[package]
name = "voice_session"
version = "0.1.0"
edition = "2021"
publish = false

[dependencies]
base64 = "=0.21.7"
serde = { version = "=1.0.229", features = ["derive"] }
serde_json = "=1.0.154"
futures = "=0.3.34"
tokio = { version = "=1.54.1", features = ["macros", "rt-multi-thread"] }
reqwest = { version = "=0.11.27", default-features = false, features = ["json", "rustls-tls"] }
serenity = { version = "=0.11.7", default-features = false, features = ["client", "framework", "standard_framework", "gateway", "model", "http", "cache", "voice", "rustls_backend"] }
songbird = "=0.3.2"
dotenv = "=0.15.0"
tracing-subscriber = "=0.3.23"

[dev-dependencies]
hound = "=3.5.1"
