[package]
name = "catena"
version = "0.1.0"
edition = "2021"
publish = false

[dependencies]
hecs = "*"
serde = { version = "1", features = ["derive"] }
