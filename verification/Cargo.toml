[package]
name = "video_harness"
version = "0.1.0"
edition = "2021"
publish = false

[dependencies]
async-trait = "0.1"
bytes = "1"
chrono = { version = "=0.4.45", features = ["serde"] }
crossterm = "0.28"
futures-util = "0.3"
ratatui = "0.29"
reqwest = { version = "=0.12.28", default-features = false, features = ["json", "stream", "rustls-tls"] }
rusqlite = { version = "=0.32.1", features = ["bundled", "backup"] }
rust_decimal = "=1.43.0"
secrecy = "=0.10.3"
serde = { version = "=1.0.229", features = ["derive"] }
serde_json = "=1.0.154"
sha2 = "=0.10.9"
thiserror = "=2.0.21"
tokio = { version = "=1.54.1", features = ["rt-multi-thread", "macros", "time", "fs", "io-util", "sync"] }
unicode-normalization = "=0.1.26"
url = "=2.5.8"

[dev-dependencies]
tempfile = "=3.27.0"
