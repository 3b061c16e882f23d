[package]
name = "desktop_shell"
version = "0.1.0"
edition = "2021"
publish = false

[dependencies]
tauri = { version = "=2.12.5", default-features = false, features = ["wry"] }
tauri-plugin-fs = "2"
tauri-plugin-positioner = "=2.4.0"
