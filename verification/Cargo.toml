[package]
name = "astras"
version = "0.1.0"
edition = "2021"
publish = false

[dependencies]
bevy = { version = "=0.17.3", default-features = false, features = ["std", "bevy_asset", "bevy_color", "bevy_core_pipeline", "bevy_gizmos", "bevy_picking", "bevy_render", "bevy_scene", "bevy_sprite", "bevy_sprite_render", "bevy_state", "bevy_text", "bevy_ui", "bevy_ui_render", "bevy_window", "default_font", "bevy_ui_picking_backend", "bevy_sprite_picking_backend"] }
bevy_platform = "=0.17.3"
rand = "=0.9.5"
uuid = { version = "=1.29.0", features = ["v4"] }
serde = { version = "=1.0.229", features = ["derive"] }
