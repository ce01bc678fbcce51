[package]
name = "auto-shit"
version = "0.1.0"
edition = "2021"
publish = false

[dependencies]
ahash = "0.8"
anyhow = "1"
dashmap = "6"
grammers-client = "0.7"
rand = "0.9"
rustyline = "*"
serde = { version = "1", features = ["derive"] }
shlex = "1"
tokio = { version = "1", features = ["full"] }
toml = "*"
tracing = "0.1"
tracing-subscriber = { version = "0.3", features = ["env-filter"] }
walkdir = "2"

[dev-dependencies]
clap = "4"
