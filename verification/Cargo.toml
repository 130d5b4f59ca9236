[package]
name = "cube_viewer"
version = "0.1.0"
edition = "2021"
publish = false

[dependencies]
rand = "=0.8.8"
bytemuck = { version = "=1.25.2", features = ["derive"] }
bevy = { version = "=0.18.1", default-features = false, features = ["async_executor", "bevy_asset", "bevy_input_focus", "bevy_window", "std", "default_font", "bevy_ui", "bevy_ui_render", "bevy_render", "bevy_core_pipeline", "bevy_pbr", "bevy_gizmos", "bevy_gizmos_render", "bevy_text", "bevy_mesh", "bevy_camera", "bevy_shader", "bevy_image", "bevy_color", "bevy_light", "bevy_picking", "ui_picking", "experimental_bevy_ui_widgets", "bevy_dev_tools"] }
