[package]
name = "barber"
version = "0.1.0"
edition = "2021"
publish = false

[dependencies]
eframe = { version = "0.31", default-features = false, features = ["default_fonts", "glow", "x11"] }
egui = { version = "0.31", default-features = false, features = ["default_fonts"] }
winit = { version = "0.30", default-features = false, features = ["x11"] }
symphonia = { version = "0.5", features = ["aiff", "mp3", "isomp4", "aac", "alac"] }
hound = "3.5"
rayon = "1"
serde = { version = "1", features = ["derive"] }
toml = "0.8"
dirs = "6"
log = "0.4"
env_logger = "0.11"
