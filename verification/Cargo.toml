[package]
name = "endif_client"
version = "0.1.0"
edition = "2021"
publish = false

[dependencies]
rand = "=0.8.8"
serde = { version = "=1.0.229", features = ["derive"] }
serde_json = "=1.0.154"
bevy_input = { version = "=0.19.1", features = ["serialize", "keyboard", "mouse"] }
bevy_app = "=0.19.1"
bevy_ecs = "=0.19.1"
bevy_math = "=0.19.1"
bevy_state = "=0.19.1"
bevy_time = "=0.19.1"
ehttp = "=0.5.0"
dotenvy = "=0.15.7"
log = "=0.4.35"
web-time = "=1.1.0"
image = { version = "0.25", default-features = false, features = ["png"] }
