[package]
name = "news_sync"
version = "0.1.0"
edition = "2021"
publish = false

[dependencies]
chrono = "0.4"
isocountry = "0.3"
urlencoding = "2"
serde = { version = "1", features = ["derive"] }
serde_json = "1"
ureq = "2"
tokio = { version = "1", features = ["macros", "rt-multi-thread", "sync", "time"] }
async-trait = "0.1"
sqlx = { version = "0.6", default-features = false, features = ["postgres", "runtime-tokio-rustls", "chrono"] }
axum = "0.6"
tower-http = { version = "0.4", features = ["trace"] }
slog = "2"
slog-async = "2"
slog-term = "2"
thiserror = "1"
reqwest = { version = "0.11", default-features = false, features = ["json", "rustls-tls"] }
