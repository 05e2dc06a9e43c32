[package]
name = "gba_clock"
version = "0.1.0"
edition = "2021"
publish = false

[dependencies]
serde = { version = "1", features = ["derive"] }
time = { version = "0.3", features = ["serde"] }
