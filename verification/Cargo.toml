[package]
name = "discord_keep_alive"
version = "0.1.0"
edition = "2021"
publish = false

[dependencies]
rand = "0.9"
serde_json = "1"
serde = { version = "1", features = ["derive"] }
secrecy = "0.10"
figment = { version = "0.10", features = ["toml"] }
clap = { version = "4", features = ["derive"] }
thiserror = "2"
anyhow = "1"
tokio = { version = "1", features = ["full"] }
tokio-tungstenite = { version = "0.26", features = ["rustls-tls-webpki-roots"] }
futures-util = { version = "0.3", features = ["sink"] }
tracing = "0.1"
tracing-subscriber = { version = "0.3", features = ["env-filter", "local-time"] }
time = { version = "0.3", features = ["macros", "formatting", "local-offset"] }
rustls = { version = "0.23", default-features = false, features = ["ring", "std", "tls12", "logging"] }
zstd = "0.13"
