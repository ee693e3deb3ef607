[package]
name = "poltertype"
version = "0.1.0"
edition = "2021"
publish = false

[dependencies]
anyhow = "=1.0.104"
crossbeam-channel = "=0.5.17"
iced = { version = "=0.14.0", default-features = false, features = ["thread-pool", "tiny-skia", "x11"] }
parking_lot = "=0.12.5"
serde = { version = "=1.0.229", features = ["derive"] }
toml = "=0.9.12"
tracing = "=0.1.44"
tray-icon = { version = "=0.26.1", default-features = false, features = ["ksni"] }
windows = { version = "0.61", features = ["Win32_Foundation", "Win32_Graphics_Gdi", "Win32_System_Com", "Win32_System_Threading", "Win32_UI_Accessibility", "Win32_UI_WindowsAndMessaging"] }
