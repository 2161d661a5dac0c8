[package]
name = "solar_sim"
version = "0.1.0"
edition = "2021"
publish = false

[dependencies]
bevy = { version = "0.15", default-features = false, features = ["bevy_state"] }
serde = { version = "1", features = ["derive"] }
serde_json = "1"
