[package]
name = "matrix-bot"
version = "0.1.0"
edition = "2021"
publish = false

[dependencies]
anyhow = "=1.0.104"
axum = "=0.8.9"
graphql_client = "=0.16.0"
native_db = "=0.8.2"
native_model = "=0.4.20"
rand = "=0.10.3"
reqwest = { version = "=0.12.28", default-features = false, features = ["json", "rustls-tls"] }
ruma = "=0.17.2"
serde = { version = "=1.0.229", features = ["derive"] }
serde_json = "=1.0.154"
tokio = { version = "=1.54.1", features = ["full"] }
toml = "=1.1.8"
tracing = "=0.1.44"
tracing-subscriber = { version = "=0.3.23", features = ["env-filter"] }
uom = "=0.38.0"
url = "=2.5.8"

[dev-dependencies]
regex = "=1.13.1"
