[package]
name = "psikat"
version = "0.1.0"
edition = "2021"
publish = false

[dependencies]
fastrand = "2"
serde = { version = "1", features = ["derive"] }
rmp-serde = "1"
hound = "3"
dirs = "6"
rodio = "0.23"
eframe = { version = "0.37", default-features = false, features = ["default_fonts", "glow", "x11"] }
egui_extras = { version = "0.37", default-features = false }
rfd = { version = "0.17", default-features = false, features = ["gtk3"] }
