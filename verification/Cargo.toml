[package]
name = "baton"
version = "0.1.0"
edition = "2021"
publish = false

[dependencies]
tetra = { version = "=0.9.1", default-features = false }
serde = { version = "=1.0.229", features = ["derive"] }
