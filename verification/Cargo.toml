[package]
name = "llm_wiki"
version = "0.1.0"
edition = "2021"
publish = false

[dependencies]
serde = { version = "=1.0.229", features = ["derive"] }
serde_json = "=1.0.154"
regex = "=1.13.1"
pulldown-cmark = "=0.12.2"
tiny_http = "=0.12.0"
chrono = "=0.4.45"
toml = "=0.8.23"
scraper = "=0.20.0"
uuid = { version = "1", features = ["v4"] }
