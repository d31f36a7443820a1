[package]
name = "manga_sources"
version = "0.1.0"
edition = "2021"
publish = false

[dependencies]
anyhow = "1"
bytes = "1"
chrono = "0.4"
cookie = "0.18"
log = "0.4"
scraper = "*"
serde = { version = "1", features = ["derive"] }
serde_json = "1"
tanoshi-lib = "*"
ureq = { version = "3", features = ["cookies", "json"] }
url = "2"
urlencoding = "2"
