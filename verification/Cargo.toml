[package]
name = "npaperbot-telegram"
version = "0.1.0"
edition = "2021"
publish = false

[dependencies]
anyhow = "1"
axum = "0.5"
chrono = "0.4"
dptree = "0.3"
log = "0.4"
nom = "=7.1.3"
regex = "=1.13.1"
reqwest = { version = "0.11", features = ["json"] }
serde = { version = "1", features = ["derive"] }
serde_json = "1"
takecell = "=0.1.1"
teloxide = { version = "0.10", features = ["macros", "auto-send"] }
tokio = { version = "1", features = ["rt-multi-thread", "macros", "time", "sync"] }
tokio-stream = "0.1"
tower = "0.4"
tower-http = { version = "0.3", features = ["add-extension", "trace"] }
tracing-subscriber = { version = "0.3", features = ["env-filter", "json"] }
url = "2"
