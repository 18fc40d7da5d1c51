[package]
name = "memx"
version = "0.1.0"
edition = "2021"
publish = false

[dependencies]
anyhow = "1"
axum = "0.8"
chrono = "0.4"
clap = { version = "4", features = ["derive"] }
dirs = "6"
dotenvy = "0.15"
flate2 = "1"
libsql = { version = "0.9", default-features = false, features = ["core"] }
reqwest = { version = "0.12", default-features = false, features = ["json", "rustls-tls"] }
rmcp = { version = "*", features = ["server", "transport-io", "macros"] }
rpassword = "7"
semver = "1"
serde = { version = "1", features = ["derive"] }
serde_json = "1"
tar = "0.4"
tokio = { version = "1", features = ["full"] }
toml = "*"
tower-http = { version = "0.6", features = ["cors"] }
tracing = "0.1"
tracing-subscriber = { version = "0.3", features = ["env-filter"] }
uuid = { version = "1", features = ["v4"] }
zip = { version = "*", default-features = false, features = ["deflate"] }
