[package]
name = "pastahandler"
version = "0.1.0"
edition = "2021"
publish = false

[dependencies]
global-hotkey = "0.9"
serde = { version = "1", features = ["derive"] }
toml = "0.9"
arboard = { version = "3", default-features = false }
tray-icon = { version = "0.26", default-features = false }
eframe = { version = "0.36", default-features = false, features = ["glow", "x11", "default_fonts"] }
raw-window-handle = "0.6"
