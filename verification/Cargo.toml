[package]
name = "tarantula"
version = "0.1.0"
edition = "2021"
publish = false

[dependencies]
url = "2"
hex = "0.4"
borsh = { version = "1", features = ["derive"] }
serde = { version = "1", features = ["derive"] }
serde_json = "1"
tokio = { version = "1", features = ["full"] }
axum = { version = "0.8", features = ["ws"] }
sqlx = { version = "0.8", default-features = false, features = ["sqlite", "runtime-tokio", "macros"] }
askama = "0.12"
clap = { version = "4", features = ["derive"] }
toml = "0.8"
tracing = "0.1"
tracing-subscriber = { version = "0.3", features = ["env-filter"] }
tower-http = { version = "0.6", features = ["compression-gzip", "trace"] }
futures-util = "0.3"
nanoid = "0.4"
headless_chrome = "1"
k256 = "0.13"
ureq = { version = "3", features = ["json"] }
