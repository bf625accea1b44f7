[package]
name = "intent_router"
version = "0.1.0"
edition = "2021"
publish = false

[dependencies]
anyhow = "1"
chrono = "0.4"
dirs = "5"
dotenvy = "0.15"
reqwest = { version = "0.12", default-features = false, features = ["blocking", "json", "rustls-tls"] }
scryer-prolog = "*"
serde = { version = "1", features = ["derive"] }
serde_json = "1"
toml = "0.8"
