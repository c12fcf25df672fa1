[package]
name = "hlds_exporter"
version = "0.1.0"
edition = "2021"
publish = false

[dependencies]
anyhow = "*"
clap = { version = "*", features = ["derive", "env"] }
dotenvy = "*"
log = "*"
prometheus-client = "*"
serde = { version = "*", features = ["derive"] }
serde_json = "*"
supports-color = "*"
tiny_http = "*"
tokio = { version = "*", features = ["rt", "net", "sync", "time", "macros"] }
tracing = "*"
tracing-subscriber = { version = "*", features = ["env-filter", "fmt", "json"] }
