[package]
name = "worldweaver"
version = "0.1.0"
edition = "2021"
publish = false

[dependencies]
zstd = "0.13"
rand = { version = "0.8", features = ["small_rng"] }
noise = "0.9"
serde = { version = "1", features = ["derive"] }
serde_json = "1"
anyhow = "1"
log = "0.4"
parking_lot = "0.12"
rusqlite = "0.31"
