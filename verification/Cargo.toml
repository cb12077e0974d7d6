[package]
name = "bevy_shooter"
version = "0.1.0"
edition = "2021"
publish = false

[dependencies]
bevy = { version = "=0.17.3", default-features = false, features = ["std", "bevy_state", "bevy_asset", "bevy_color", "bevy_camera", "bevy_window", "bevy_sprite", "bevy_text", "bevy_ui", "bevy_log"] }
fastrand = "=2.5.0"
smallvec = "=1.16.4"
