[package]
name = "bandcamper"
version = "0.1.0"
edition = "2021"
publish = false

[dependencies]
bench_scraper = "*"
clap = { version = "4", features = ["derive"] }
json_dotpath = "1"
regex = "1"
reqwest = { version = "0.11", features = ["blocking", "gzip", "cookies", "json"] }
scraper = "*"
serde = { version = "1", features = ["derive"] }
serde_json = "1"
zip = "0.6"
