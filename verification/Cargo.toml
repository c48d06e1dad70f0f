[package]
name = "forest_hills_departure"
version = "0.2.0"
edition = "2021"
publish = false

[dependencies]
chrono = "0.4"
clap = "2"
embedded-graphics = "0.6"
ht16k33 = "0.4"
reqwest = { version = "0.12", default-features = false, features = ["blocking", "json", "rustls-tls"] }
rppal = { version = "*", features = ["hal"] }
scraper = "*"
serde_json = "1"
ssd1306 = "0.4"
