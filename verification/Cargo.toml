[package]
name = "mailroom"
version = "0.1.0"
edition = "2021"
publish = false

[dependencies]
chrono = { version = "=0.4.45", default-features = false, features = ["std", "clock", "serde"] }
serde = { version = "=1.0.229", features = ["derive"] }
serde_json = "=1.0.154"
toml = "=0.8.23"
anyhow = "=1.0.104"
clap = { version = "=4.6.7", features = ["derive"] }
mail-parser = "=0.9.4"
uuid = { version = "=1.29.0", features = ["v4"] }
cron = "=0.12.1"
minijinja = "=2.24.0"
thiserror = "=1.0.69"
tokio = { version = "=1.54.1", features = ["rt-multi-thread", "macros", "sync", "time", "signal"] }
tracing = "=0.1.44"
tracing-subscriber = { version = "=0.3.23", features = ["env-filter"] }
rusqlite = { version = "=0.31.0", features = ["bundled"] }
lettre = { version = "=0.11.23", default-features = false, features = ["builder", "smtp-transport", "hostname"] }
notify = "=6.1.1"
