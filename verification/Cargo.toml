[package]
name = "policy_monitor"
version = "0.1.0"
edition = "2021"
publish = false

[dependencies]
anyhow = "1"
axum = "0.7"
chrono = { version = "0.4", features = ["serde"] }
console_error_panic_hook = "0.1"
dotenv = "0.15"
hex = "0.4"
prometheus = { version = "0.13", default-features = false }
redis = "0.27"
reqwest = { version = "0.11", default-features = false, features = ["rustls-tls"] }
rust_decimal = "1"
scraper = "0.18"
serde = { version = "1", features = ["derive"] }
serde_json = "1"
serde-wasm-bindgen = "0.6"
sha2 = "0.10"
sqlx = { version = "0.8", default-features = false, features = ["runtime-tokio", "postgres", "uuid", "chrono", "json", "rust_decimal", "derive"] }
tokio = { version = "1", features = ["full"] }
tokio-cron-scheduler = "0.10"
tower-http = { version = "0.5", features = ["trace"] }
tracing = "0.1"
tracing-subscriber = { version = "0.3", features = ["env-filter", "json"] }
uuid = { version = "1", features = ["v4", "serde"] }
wasm-bindgen = "0.2"
