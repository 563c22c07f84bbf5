[package]
name = "seekcli"
version = "0.1.0"
edition = "2021"
publish = false

[dependencies]
anyhow = "=1.0.104"
async-trait = "=0.1.92"
bytes = "=1.12.1"
chrono = { version = "=0.4.45", default-features = false, features = ["clock", "serde", "std"] }
clap = { version = "=4.6.7", features = ["derive"] }
colored = "=2.2.0"
futures-util = "=0.3.34"
reqwest = { version = "=0.12.28", default-features = false, features = ["json", "stream", "rustls-tls"] }
rustyline = "=14.0.0"
serde = { version = "=1.0.229", features = ["derive"] }
serde_json = "=1.0.154"
tokio = { version = "=1.54.1", features = ["rt-multi-thread", "macros", "time", "process", "io-util", "sync", "signal"] }
toml = "=0.8.23"
uuid = { version = "=1.29.0", features = ["v4"] }
