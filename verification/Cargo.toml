[package]
name = "reddit_scraper"
version = "0.1.0"
edition = "2021"
publish = false

[dependencies]
clap = "=2.34.0"
html5ever = "=0.26.0"
image = { version = "=0.24.9", default-features = false, features = ["bmp", "gif", "hdr", "ico", "jpeg", "png", "pnm", "tiff", "webp"] }
markup5ever_rcdom = "=0.2.0"
reqwest = { version = "=0.11.27", default-features = false, features = ["blocking", "rustls-tls"] }
xml-rs = "=0.8.29"
