[package]
name = "dash_viewer"
version = "0.1.0"
edition = "2021"
publish = false

[dependencies]
anyhow = "1"
bytemuck = { version = "1", features = ["derive"] }
env_logger = "0.11"
glam = "0.30"
log = "0.4"
serde = { version = "1", features = ["derive"] }
serde_json = "1"
winit = { version = "0.30", default-features = false, features = ["rwh_06", "x11"] }
