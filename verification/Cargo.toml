[package]
name = "arqen"
version = "0.1.0"
edition = "2021"
publish = false

[dependencies]
uuid = { version = "=1.29.0", features = ["v4"] }
chrono = "=0.4.45"
serde = { version = "=1.0.229", features = ["derive"] }
serde_json = "=1.0.154"
toml = "=0.8.23"
tokio = { version = "=1.54.1", features = ["rt-multi-thread", "macros", "time", "sync", "process", "signal", "io-util", "fs", "net"] }
axum = "=0.7.9"
async-trait = "=0.1.92"
tracing = "=0.1.44"
sha2 = "=0.10.9"
hex = "=0.4.3"
clap = { version = "=4.6.7", features = ["derive"] }
anyhow = "=1.0.104"
tracing-subscriber = { version = "0.3", features = ["fmt", "json", "env-filter"] }
reqwest = { version = "0.12", default-features = false, features = ["json", "stream"] }
libc = "0.2"
futures-util = "0.3"
tower-http = { version = "0.6", features = ["cors"] }
