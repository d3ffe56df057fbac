[package]
name = "yfp"
version = "1.0.0"
edition = "2021"
publish = false

[dependencies]
rand = { version = "0.8", features = ["small_rng"] }
eframe = { version = "*", default-features = false, features = ["default_fonts", "glow", "persistence", "x11"] }
egui = "*"
open = "*"
rfd = { version = "*", default-features = false, features = ["gtk3"] }
tray-icon = "*"
windows = { version = "*", features = ["Win32_Foundation", "Win32_Storage_FileSystem"] }
