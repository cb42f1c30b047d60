[package]
name = "lost_lib"
version = "0.1.0"
edition = "2021"
publish = false

[dependencies]
rand = "=0.8.8"
serde = { version = "=1.0.229", features = ["derive"] }
bincode = "=1.3.3"
crossbeam-channel = "=0.5.17"
lazy_static = "=1.5.1"
local-ip-address = "=0.5.7"
bevy = { version = "=0.10.1", default-features = false, features = ["bevy_asset", "bevy_scene", "bevy_winit", "bevy_core_pipeline", "bevy_pbr", "bevy_render", "bevy_sprite", "bevy_text", "bevy_ui", "x11"] }
bevy_renet = "=0.0.8"
bevy_rapier3d = { version = "=0.21.0", default-features = false, features = ["dim3", "async-collider"] }
smooth-bevy-cameras = "=0.8.0"
