[package]
name = "local_jira"
version = "0.1.0"
edition = "2021"
publish = false

[dependencies]
base64 = "0.22"
html-escape = "0.2"
html2text = "0.12"
serde = { version = "1", features = ["derive"] }
serde_json = "1"
sqlx = { version = "0.8", default-features = false, features = ["runtime-tokio", "sqlite", "macros", "migrate", "json"] }
tokio = { version = "1", features = ["full"] }
reqwest = { version = "0.12", default-features = false, features = ["rustls-tls"] }
toml = "0.8"
dirs = "5"
tempfile = "3"
