[package]
name = "wallpaper_downloader"
version = "0.1.0"
edition = "2021"
publish = false

[dependencies]
anyhow = "1"
clap = { version = "4", features = ["derive"] }
dirs = "6"
indicatif = "0.17"
reqwest = { version = "0.12", default-features = false, features = ["charset", "http2", "rustls-tls"] }
scraper = "0.23"
serde = { version = "1", features = ["derive"] }
shellexpand = "3"
tokio = { version = "1", features = ["fs", "macros", "rt-multi-thread", "sync", "time"] }
toml = "0.8"
