[package]
name = "quotebot"
version = "0.1.0"
edition = "2021"
publish = false

[dependencies]
rusqlite = { version = "*", features = ["bundled"] }
tokio = { version = "1", features = ["macros", "rt", "signal", "sync", "time"] }
poise = "0.5"
reqwest = { version = "0.11", default-features = false, features = ["rustls-tls"] }
anyhow = "1"
argh = "*"
async-shutdown = "0.1"
configparser = "*"
notify = "*"
once_cell = "1"
tracing = "0.1"
tracing-subscriber = "0.3"
