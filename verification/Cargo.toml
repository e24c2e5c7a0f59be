[package]
name = "tidy-cleaner"
version = "0.1.0"
edition = "2021"
publish = false

[dependencies]
quick-xml = "0.37"
sysinfo = "0.35"
walkdir = "2"
serde = { version = "1", features = ["derive"] }
serde_json = "1"
anyhow = "1"
thiserror = "2"
tracing = "0.1"
tracing-subscriber = { version = "0.3", features = ["env-filter", "fmt"] }
tokio = { version = "1", features = ["rt-multi-thread", "macros", "sync", "time"] }
