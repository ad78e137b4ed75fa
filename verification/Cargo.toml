[package]
name = "tenth"
version = "0.1.0"
edition = "2021"
publish = false

[dependencies]
chrono = { version = "0.4", features = ["serde"] }
uuid = { version = "1", features = ["v4", "serde"] }
serde = { version = "1", features = ["derive"] }
serde_json = "1"
directories = "6"
eframe = { version = "0.32", default-features = false, features = ["default_fonts", "glow", "x11"] }
tray-icon = "0.21"
