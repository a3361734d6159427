[package]
name = "comic_archiver"
version = "0.1.0"
edition = "2021"
publish = false

[dependencies]
anyhow = "1"
bytes = "1"
clap = { version = "4", features = ["derive"] }
colored = "2"
image = "0.25"
indicatif = "0.17"
reqwest = "0.12"
scraper = "*"
serde = { version = "1", features = ["derive"] }
serde_json = "1"
serde_urlencoded = "0.7"
tokio = { version = "1", features = ["full"] }
url = "2"
