[package]
name = "manga_parser"
version = "0.1.0"
edition = "2021"
publish = false

[dependencies]
anyhow = "1"
async-trait = "0.1"
chrono = "0.4"
convert_case = "*"
fake_user_agent = "*"
http-cache-reqwest = "0.11"
kuchiki = "0.8"
notify = "6"
regex = "1"
reqwest = { version = "0.11", default-features = false }
reqwest-middleware = "0.2"
reqwest-retry = "0.2"
serde = { version = "1", features = ["derive"] }
serde_yaml = "0.9"
task-local-extensions = "0.1"
thiserror = "1"
tokio = { version = "1", features = ["time"] }
url = "2"
uuid = "1"
