[package]
name = "planner_core"
version = "0.1.0"
edition = "2021"
publish = false

[dependencies]
serde = { version = "1", features = ["derive"] }
serde_json = "1"
egui = "*"
eframe = { version = "*", default-features = false, features = ["glow", "default_fonts", "x11"] }
rfd = "*"
