[package]
name = "scluner"
version = "3.0.0"
edition = "2021"
publish = false

[dependencies]
rand = "0.9"
ciborium = "0.2"
serde = { version = "1", features = ["derive"] }
