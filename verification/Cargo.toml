[package]
name = "voice_channel_manager"
version = "0.1.0"
edition = "2021"
publish = false

[dependencies]
rustc-hash = "2"
serde_json = "1"
serenity = { version = "0.12", default-features = false, features = ["builder", "cache", "client", "gateway", "http", "model", "utils", "rustls_backend"] }
poise = { version = "0.6", default-features = false, features = ["cache"] }
sqlx = { version = "0.7", default-features = false, features = ["postgres", "runtime-tokio"] }
tokio = { version = "1", features = ["rt-multi-thread", "sync"] }
futures = "0.3"
eyre = "0.6"
color-eyre = "0.6"
dotenvy = "0.15"
tracing = "0.1"
tracing-error = "0.2"
tracing-subscriber = { version = "0.3", features = ["env-filter", "time"] }
