[package]
name = "telemost"
version = "0.1.0"
edition = "2021"
publish = false

[dependencies]
chrono = "0.4"
directories = "6"
eframe = { version = "0.37", default-features = false, features = ["default_fonts", "glow", "x11"] }
keyring = { version = "3", features = ["linux-native"] }
serde = { version = "1", features = ["derive"] }
serde_json = "1"
ureq = { version = "3", features = ["json"] }
