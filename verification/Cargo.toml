[package]
name = "cdg_player"
version = "0.1.0"
edition = "2021"
publish = false

[dependencies]
image = { version = "=0.25.10", default-features = false, features = ["png"] }
hound = "=3.5.1"
eframe = { version = "=0.31.1", default-features = false, features = ["default_fonts", "glow", "x11"] }
egui_extras = { version = "=0.31.1", default-features = false }
rfd = { version = "=0.15.4", default-features = false, features = ["xdg-portal", "tokio"] }
sevenz-rust2 = "=0.24.2"
zip = { version = "=2.6.1", default-features = false }
