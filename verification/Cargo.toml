[package]
name = "soma"
version = "0.1.0"
edition = "2021"
publish = false

[dependencies]
psy = "*"
clap = { version = "4", features = ["derive"] }
eframe = { version = "*", default-features = false, features = ["default_fonts", "glow", "x11"] }
egui = "*"
egui-phosphor = "*"
