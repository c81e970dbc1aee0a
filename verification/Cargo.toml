[package]
name = "swarm"
version = "0.1.0"
edition = "2021"
publish = false

[dependencies]
uuid = { version = "=1.29.0", features = ["v4"] }
chrono = "=0.4.45"
serde = { version = "=1.0.229", features = ["derive"] }
serde_json = "=1.0.154"
semver = "=1.0.28"
toml = "=0.8.23"
clap = { version = "=4.5.61", features = ["derive", "env"] }
tokio = { version = "=1.54.1", features = ["rt-multi-thread", "macros", "sync", "time", "fs", "io-util"] }
anyhow = "=1.0.104"
async-trait = "=0.1.92"
thiserror = "=1.0.69"
tracing = "=0.1.44"
dashmap = "=6.2.1"
tempfile = "=3.27.0"
walkdir = "=2.5.0"
flate2 = "=1.1.10"
tar = "=0.4.46"
zip = { version = "=9.2.2", default-features = false }
self-replace = "1"
