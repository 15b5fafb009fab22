[package]
name = "legend"
version = "0.1.0"
edition = "2021"
publish = false

[dependencies]
bincode = "1.3"
lz4 = "1"
serde = { version = "1", features = ["derive"] }
serde_json = "1"
