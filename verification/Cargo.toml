[package]
name = "markturbo"
version = "0.1.0"
edition = "2021"
publish = false

[dependencies]
log = "=0.4.35"
raw-window-handle = "=0.6.2"
windows = { version = "=0.59.0", features = ["Win32_Foundation", "Win32_UI_WindowsAndMessaging"] }
