[package]
name = "maproom"
version = "0.1.0"
edition = "2021"
publish = false

[dependencies]
regex = "1"
atty = "0.2"
lru = "0.12"
serde = { version = "1", features = ["derive"] }
serde_json = "1"
anyhow = "1"
thiserror = "1"
prometheus = "0.13"
chrono = "0.4"
tracing = "0.1"
