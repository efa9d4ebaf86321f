[package]
name = "seo_site_checker"
version = "0.1.0"
edition = "2021"
publish = false

[dependencies]
chrono = { version = "=0.4.45", features = ["serde"] }
clap = { version = "=4.6.7", features = ["derive"] }
kstring = "=2.0.0"
liquid = "=0.26.11"
log = "=0.4.34"
reqwest = { version = "=0.12.28", features = ["blocking"] }
scraper = "=0.29.0"
serde = { version = "=1.0.229", features = ["derive"] }
serde_json = "=1.0.154"

[dev-dependencies]
regex = "=1.13.1"
