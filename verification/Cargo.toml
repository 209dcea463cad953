[package]
name = "novel_epub"
version = "0.1.0"
edition = "2021"
publish = false

[dependencies]
scraper = "=0.29.0"
epub-builder = "=0.8.3"
glob = "=0.3.4"
reqwest = { version = "=0.12.28", default-features = false, features = ["blocking", "rustls-tls"] }

[dev-dependencies]
zip = { version = "=6.0.0", default-features = false, features = ["deflate"] }
regex = "=1.13.1"
html-builder = "=0.5.1"
