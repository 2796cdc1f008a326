[package]
name = "checklist_manager"
version = "0.1.0"
edition = "2021"
publish = false

[dependencies]
indexmap = { version = "=2.14.2", features = ["serde"] }
image = { version = "=0.24.9", default-features = false }
lopdf = "=0.47.0"
chrono = { version = "=0.4.45", features = ["serde"] }
serde = { version = "=1.0.229", features = ["derive"] }
serde_json = "=1.0.154"
eframe = { version = "=0.24.1", default-features = false, features = ["default_fonts", "glow", "x11"] }
rfd = { version = "=0.17.2", default-features = false, features = ["xdg-portal"] }
