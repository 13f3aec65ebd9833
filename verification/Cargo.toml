[package]
name = "myfeed"
version = "0.1.0"
edition = "2021"
publish = false

[dependencies]
serde_json = "=1.0.154"
serde = { version = "=1.0.229", features = ["derive"] }
chrono = "=0.4.45"
clap = { version = "=4.6.7", features = ["derive"] }
diesel = { version = "=2.3.14", features = ["sqlite"] }
diesel_migrations = "=2.3.2"
dotenvy = "=0.15.7"
reqwest = { version = "=0.12.28", default-features = false, features = ["json", "rustls-tls"] }
tokio = { version = "=1.54.1", features = ["full"] }
tracing = "=0.1.44"
tracing-subscriber = { version = "=0.3.23", features = ["env-filter"] }
async-trait = "=0.1.92"
