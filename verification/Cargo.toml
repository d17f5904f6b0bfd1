[package]
name = "frame_overlay"
version = "0.1.0"
edition = "2021"
publish = false

[dependencies]
egui = "0.19"
smithay = { version = "*", default-features = false, features = ["renderer_glow", "backend_drm"] }
