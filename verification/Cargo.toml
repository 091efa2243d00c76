[package]
name = "firnflow"
version = "0.1.0"
edition = "2021"
publish = false

[dependencies]
anyhow = "=1.0.104"
arrow-array = { version = "=60.1.0", default-features = false }
arrow-ipc = { version = "=60.1.0", default-features = false }
arrow-schema = { version = "=60.1.0", default-features = false }
async-trait = "=0.1.92"
axum = "=0.8.9"
bincode = { version = "=2.0.1", features = ["serde"] }
bytes = "=1.12.1"
dashmap = "=6.2.1"
foyer = "=0.22.6"
futures = "=0.3.34"
object_store = { version = "=0.14.2", default-features = false, features = ["aws", "fs", "gcp"] }
prometheus = { version = "=0.14.0", default-features = false }
serde = { version = "=1.0.229", features = ["derive"] }
serde_json = "=1.0.154"
tempfile = "=3.27.0"
thiserror = "=2.0.21"
tokio = { version = "=1.54.1", features = ["rt-multi-thread", "macros", "net", "fs", "io-util", "sync", "time", "signal"] }
tower = "=0.5.3"
tracing = "=0.1.44"
uuid = { version = "=1.29.0", features = ["v7"] }
xxhash-rust = { version = "=0.8.19", features = ["xxh3"] }
