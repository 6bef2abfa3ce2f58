[package]
name = "hot_reload"
version = "0.1.0"
edition = "2021"
publish = false

[dependencies]
shared_memory = "0.12"
raw_sync = "0.1"
rand = "0.8"
signal-hook = "0.3"
serde = { version = "1", features = ["derive"] }
ron = "0.8"
