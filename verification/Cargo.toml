[package]
name = "github_dashboard"
version = "0.1.0"
edition = "2021"
publish = false

[dependencies]
anyhow = "1"
chrono = "0.4"
eframe = { version = "0.31", default-features = false, features = ["default_fonts", "glow", "x11"] }
notify = "8"
regex = "1"
serde = { version = "1", features = ["derive"] }
serde_json = "1"
