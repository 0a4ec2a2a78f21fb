[package]
name = "babak_code"
version = "0.1.0"
edition = "2021"
publish = false

[dependencies]
async-trait = "0.1"
chrono = "0.4"
copypasta = "0.10"
crossterm = "0.28"
dirs = "6"
futures = "0.3"
pulldown-cmark = { version = "0.13", default-features = false }
ratatui = "0.29"
reqwest = { version = "0.12", default-features = false, features = ["json", "stream", "rustls-tls"] }
serde = { version = "1", features = ["derive"] }
serde_json = "1"
serde_with = "3"
thiserror = "2"
tokio = { version = "1", features = ["full"] }
tracing = "0.1"
