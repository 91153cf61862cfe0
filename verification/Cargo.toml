[package]
name = "graft-sqlite"
version = "0.1.0"
edition = "2021"
publish = false

[dependencies]
indoc = "=2.0.8"
libc = "=0.2.191"
parking_lot = "=0.12.5"
rusqlite = { version = "=0.41.1", features = ["bundled", "serialize", "backup"] }
serde = { version = "=1.0.229", features = ["derive"] }
serde_json = "=1.0.154"
sha2 = "=0.10.9"
thiserror = "=2.0.21"
tracing = "=0.1.44"

[dev-dependencies]
tempfile = "=3.27.0"
