[package]
name = "quire"
version = "0.1.0"
edition = "2021"

[dependencies]
heapless = "0.8"
hypher = "0.1"
postcard = { version = "1", features = ["alloc"] }
serde = { version = "1", features = ["derive"] }
serde_json = "1"
