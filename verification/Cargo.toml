[package]
name = "audio_calculator"
version = "0.1.0"
edition = "2021"
publish = false

[dependencies]
symphonia = "0.5"
chrono = "0.4"
image = { version = "0.25", default-features = false, features = ["png"] }
imageproc = { version = "0.25", default-features = false }
ab_glyph = "0.2"
serde = { version = "1", features = ["derive"] }
serde_json = "1"
directories = "6"
walkdir = "2"
open = "5"
arboard = "3"
eframe = { version = "0.29", default-features = false, features = ["default_fonts", "glow", "x11"] }
egui_extras = "0.29"
