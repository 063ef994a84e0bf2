[package]
name = "touch_input"
version = "0.1.0"
edition = "2021"
publish = false

[dependencies]
bevy_app = "0.2"
bevy_ecs = "0.2"
serde = { version = "1", features = ["derive"] }
