[package]
name = "trading_bot"
version = "0.1.0"
edition = "2021"
publish = false

[dependencies]
anyhow = "1"
axum = { version = "0.7", default-features = false, features = ["http1", "json", "tokio"] }
clap = { version = "4", default-features = false, features = ["std", "derive", "help", "usage"] }
dotenvy = "0.15"
ethers = { version = "2", default-features = false, features = ["abigen"] }
k256 = "0.13"
reqwest = { version = "0.11", default-features = false, features = ["json"] }
serde = { version = "1", features = ["derive"] }
serde_json = "1"
time = { version = "0.3", features = ["serde"] }
tokio = { version = "1", features = ["macros", "rt-multi-thread", "net", "time", "sync"] }
tracing = "0.1"
tracing-subscriber = { version = "0.3", default-features = false, features = ["fmt", "env-filter"] }
uuid = { version = "1", features = ["v4", "serde"] }
