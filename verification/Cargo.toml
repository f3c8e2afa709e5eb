[package]
name = "rnga"
version = "0.1.0"
edition = "2021"
publish = false

[dependencies]
html-escape = "0.2"
sxd-document = "0.3"
sxd-xpath = "0.4"
regex = "1"
encoding_rs = "0.8"
url = "2"
chrono = "0.4"
reqwest = { version = "0.12", default-features = false, features = ["gzip", "rustls-tls"] }
tokio = { version = "1", features = ["rt-multi-thread", "macros", "sync", "time"] }
futures = "0.3"
serde = { version = "1", features = ["derive"] }
serde_json = "1"
clap = { version = "4", features = ["derive"] }
async-trait = "0.1"
thiserror = "1"
anyhow = "1"
toml = "0.8"
colored = "2"
comfy-table = "7"
tracing = "0.1"
tracing-subscriber = { version = "0.3", features = ["env-filter"] }
