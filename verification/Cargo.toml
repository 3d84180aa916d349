[package]
name = "maa_run"
version = "0.1.0"
edition = "2021"
publish = false

[dependencies]
anyhow = "1"
clap = { version = "4", features = ["derive"] }
dunce = "1"
image = { version = "0.25", default-features = false, features = ["png"] }
log = "0.4"
serde_json = { version = "1", features = ["float_roundtrip"] }
signal-hook = "0.3"
windows-sys = { version = "0.59", features = ["Win32_Foundation", "Win32_System_Threading", "Win32_UI_WindowsAndMessaging"] }
