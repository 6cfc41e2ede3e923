[package]
name = "logitech_widget"
version = "0.1.0"
edition = "2021"
publish = false

[dependencies]
hidapi = "2"
regex-lite = "0.1"
serde = { version = "1", features = ["derive"] }
serde_json = "1"
tungstenite = "*"
tauri = { version = "2", default-features = false }
tauri-plugin-autostart = "2"
windows = { version = "*", default-features = false, features = ["Win32_Foundation", "Win32_UI_Shell", "Win32_UI_WindowsAndMessaging"] }
