[package]
name = "blush"
version = "0.0.1"
edition = "2021"

[dependencies]
bincode = "1.3"
logos = "0.12"
serde = { version = "1", features = ["derive"] }
