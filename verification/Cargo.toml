[package]
name = "link_expander"
version = "0.1.0"
edition = "2021"
publish = false

[dependencies]
anyhow = "1"
futures-util = "0.3"
linkify = "0.10"
reqwest = { version = "0.11", default-features = false }
scraper = "*"
serde = { version = "1", features = ["derive"] }
tokio = { version = "1", features = ["macros", "rt-multi-thread"] }
toml = "*"
twilight-gateway = "0.15"
twilight-http = "0.15"
twilight-model = "0.15"
twilight-util = { version = "0.15", features = ["builder"] }
url = "2"
