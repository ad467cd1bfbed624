[package]
name = "nudge"
version = "0.1.0"
edition = "2021"
publish = false

[dependencies]
ulid = "1"
dirs = "*"
web-time = "1"
serde = { version = "1", features = ["derive"] }
serde_json = "1"
chrono = "0.4"
notify = "*"
eframe = { version = "0.34", default-features = false, features = ["default_fonts", "glow", "x11"] }
raw-window-handle = "0.6"
