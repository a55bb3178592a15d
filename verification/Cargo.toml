[package]
name = "menu_plugin"
version = "0.1.0"
edition = "2021"
publish = false

[dependencies]
bevy = { version = "=0.16.1", default-features = false, features = ["bevy_asset", "bevy_log", "bevy_state"] }
bevy_asset_loader = "0.23"
godot = "=0.3.5"
godot-bevy = "=0.8.4"
