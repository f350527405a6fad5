[package]
name = "space_simulation"
version = "0.1.0"
edition = "2021"
publish = false

[dependencies]
itertools = "=0.10.5"
bevy = { version = "=0.9.1", default-features = false }
serde = { version = "=1.0.229", features = ["derive"] }
serde_json = "=1.0.154"
chrono = { version = "0.4", features = ["serde"] }
