[package]
name = "xtg"
version = "0.1.0"
edition = "2021"
publish = false

[dependencies]
chrono = "*"
urlencoding = "*"
ab_glyph = "*"
tokio = { version = "*", features = ["full"] }
reqwest = { version = "*", default-features = false, features = ["json", "stream", "rustls-tls"] }
serde = { version = "*", features = ["derive"] }
serde_json = "*"
toml = "*"
axum = "*"
tower-http = { version = "*", features = ["cors", "fs", "trace"] }
tokio-stream = { version = "*", features = ["sync"] }
futures-util = "*"
tracing = "*"
tracing-subscriber = { version = "*", features = ["env-filter", "fmt"] }
anyhow = "*"
async-trait = "*"
thiserror = "*"
directories = "*"
grammers-client = "*"
grammers-session = "*"
grammers-mtsender = "*"
