[package]
name = "bevy_cam_gizmo"
version = "0.1.0"
edition = "2021"
publish = false

[dependencies]
bevy = { version = "=0.8.1", default-features = false, features = ["bevy_asset", "bevy_scene", "render"] }
bevy_mod_picking = "=0.9.0"
