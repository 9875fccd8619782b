[package]
name = "velox_core"
version = "0.1.0"
edition = "2021"
publish = false

[dependencies]
chrono = { version = "=0.4.45", default-features = false, features = ["std", "now"] }
hostname = "=0.3.1"
human_bytes = "=0.4.3"
num_cpus = "=1.17.0"
parking_lot = "0.12"
serde = { version = "1", features = ["derive"] }
serde_json = "1"
thiserror = "1"
tokio = { version = "1", default-features = false, features = ["rt", "rt-multi-thread", "sync", "time"] }
tracing = "0.1"
tracing-subscriber = { version = "0.3", default-features = false, features = ["env-filter", "fmt", "std"] }
uuid = { version = "=1.29.0", features = ["v4", "serde"] }
walkdir = "=2.5.0"
