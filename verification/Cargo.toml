[package]
name = "mouse_listener"
version = "0.1.0"
edition = "2021"
publish = false

[dependencies]
napi = { version = "=2.16.17", features = ["napi4"] }
napi-derive = "=2.16.13"
serde = { version = "=1.0.229", features = ["derive"] }
serde_json = "=1.0.154"
uiautomation = "0.7"
windows = { version = "0.52", features = ["Win32_Foundation", "Win32_UI_WindowsAndMessaging", "Win32_System_ProcessStatus", "Win32_System_Threading"] }
