[package]
name = "stellar_router"
version = "0.1.0"
edition = "2021"
publish = false

[dependencies]
anyhow = "1"
async-trait = "0.1"
axum = { version = "0.7.9", features = ["ws"] }
clap = { version = "4", features = ["derive", "env"] }
dashmap = "6.1.0"
futures-util = "0.3"
prometheus = "0.13"
reqwest = { version = "0.12.15", default-features = false, features = ["json", "stream"] }
serde = { version = "1.0.219", features = ["derive"] }
serde_json = "1"
soroban-sdk = "21"
subtle = "2.6"
tokio = { version = "1.44.2", features = ["full"] }
tokio-util = "0.7"
tracing = "0.1.41"
utoipa = "4"
