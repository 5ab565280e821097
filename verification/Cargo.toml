[package]
name = "jalert_receiver"
version = "0.1.0"
edition = "2021"
publish = false

[dependencies]
chrono = "=0.4.45"
roxmltree = "=0.20.0"
serde_json = "=1.0.154"
tiny_http = "=0.12.0"
eframe = { version = "0.29", default-features = false, features = ["default_fonts", "glow", "x11"] }
egui = "0.29"
