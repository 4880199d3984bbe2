[package]
name = "task_picker"
version = "0.1.0"
edition = "2021"
publish = false

[dependencies]
anyhow = "1"
base64 = "0.22"
chrono = "0.4"
eframe = { version = "0.22", default-features = false, features = ["default_fonts", "glow", "persistence"] }
egui = "0.22"
egui-notify = "0.7"
egui-phosphor = "0.2"
ellipse = "0.2"
itertools = "0.11"
json = "0.12"
keyring = "2"
log = "0.4"
minicaldav = "0.8"
rayon = "1"
serde = { version = "1", features = ["derive"] }
ureq = "2"
url = "2"
