[package]
name = "svckit"
version = "0.1.0"
edition = "2021"
publish = false

[dependencies]
rustls-pemfile = "2"
convert_case = "*"
tokio = { version = "1", features = ["rt-multi-thread", "macros", "net", "time", "sync", "io-util"] }
tokio-postgres = "0.7"
deadpool-postgres = "*"
postgres-from-row = "*"
rustls = { version = "0.23", default-features = false, features = ["ring", "std", "logging", "tls12"] }
tokio-rustls = { version = "0.26", default-features = false, features = ["ring", "logging", "tls12"] }
serde = { version = "1", features = ["derive"] }
serde_json = "1"
clap = { version = "4", features = ["derive", "env"] }
eyre = "0.6"
futures = "0.3"
secrecy = "*"
tracing = "0.1"
tracing-subscriber = { version = "0.3", features = ["env-filter"] }
tracing-appender = "0.2"
tokio-cron-scheduler = "*"
