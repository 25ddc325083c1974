[package]
name = "oct"
version = "0.1.0"
edition = "2021"
publish = false

[dependencies]
anyhow = "1"
chrono = "0.4"
clap = "2"
file-lock = "1"
futures = "0.3"
graphql-parser = "0.4"
hyper = { version = "0.14", features = ["full"] }
lazy_static = "1"
rand = "0.8"
regex = "1"
reqwest = { version = "0.11", features = ["json", "blocking"] }
rusqlite = { version = "0.29", features = ["bundled"] }
serde = { version = "1", features = ["derive"] }
serde_json = "1"
serde_yaml = "0.8"
tokio = { version = "1", features = ["full"] }
tokio-util = { version = "0.7", features = ["codec"] }
url = "2"
