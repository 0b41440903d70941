[package]
name = "gravity_pipeline"
version = "0.1.0"
edition = "2021"
publish = false

[dependencies]
bevy = { version = "=0.10.1", default-features = false, features = ["bevy_asset", "bevy_core_pipeline", "bevy_render", "bevy_sprite"] }
bevy-inspector-egui = { version = "0.18", default-features = false }
bevy_rapier2d = "=0.21.0"
particular = "=0.5.2"
rand = "=0.8.8"
