[package]
name = "agentfs_core"
version = "0.1.0"
edition = "2021"
publish = false

[dependencies]
async-trait = "=0.1.92"
libc = "=0.2.191"
lru = "=0.19.0"
parking_lot = "=0.13.0"
serde = { version = "=1.0.229", features = ["derive"] }
serde_json = "=1.0.154"
smallvec = "=1.16.4"
tokio = { version = "=1.54.1", features = ["rt", "sync", "time", "macros"] }
tracing = "=0.1.44"
turso = { version = "=0.8.3", features = ["sync"] }

[dev-dependencies]
tempfile = "=3.27.0"
