[package]
name = "workflow_core"
version = "0.1.0"
edition = "2021"
publish = false

[dependencies]
regex = "=1.13.1"
regex-syntax = { version = "=0.8.11", features = ["unicode-perl"] }
uuid = { version = "=1.29.0", features = ["v4", "serde"] }
chrono = { version = "=0.4.45", features = ["serde"] }
serde = { version = "=1.0.229", features = ["derive"] }
serde_json = "=1.0.154"
serde_yaml = "=0.9.34"
toml = "=0.8.23"
thiserror = "=1.0.69"
anyhow = "=1.0.104"
log = "=0.4.35"
clap = "=4.6.7"
tokio = { version = "=1.54.1", features = ["sync", "macros", "rt-multi-thread", "time"] }
tokio-postgres = { version = "=0.7.18", features = ["with-chrono-0_4", "with-uuid-1", "with-serde_json-1"] }
deadpool = "=0.13.1"
deadpool-postgres = "=0.14.2"
amqprs = "=2.1.5"
actix-web = { version = "=4.18.1", default-features = false, features = ["macros"] }
