[package]
name = "vrma_retarget"
version = "0.1.0"
edition = "2021"
publish = false

[dependencies]
bevy = { version = "0.16", default-features = false, features = ["std", "async_executor", "bevy_animation", "bevy_render", "bevy_window", "serialize"] }
serde = { version = "1", features = ["derive"] }
