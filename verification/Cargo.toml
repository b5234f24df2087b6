[package]
name = "robots"
version = "0.1.0"
edition = "2021"
publish = false

[dependencies]
byteorder = "1"
serde = { version = "1", features = ["derive"] }
serde_json = "1"
thiserror = "1"
clap = { version = "3", features = ["derive"] }
lazy_static = "1"
tracing = "0.1"
tracing-subscriber = "0.3"
crossbeam-channel = "0.5"
bevy = { version = "0.7", default-features = false, features = ["render", "bevy_winit", "x11"] }
bevy_prototype_lyon = "0.5"
