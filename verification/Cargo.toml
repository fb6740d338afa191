[package]
name = "pinwall"
version = "0.1.0"
edition = "2021"
publish = false

[dependencies]
png = "=0.18.1"
thiserror = "=2.0.21"
global-hotkey = "=0.9.0"
block2 = "=0.6.2"
objc2 = "=0.6.5"
objc2-app-kit = "=0.3.2"
objc2-core-foundation = "=0.3.2"
objc2-core-graphics = "=0.3.2"
objc2-foundation = "=0.3.2"
objc2-screen-capture-kit = "=0.3.2"
eframe = { version = "=0.37.0", default-features = false, features = ["glow", "x11"] }
winit = { version = "=0.30.13", default-features = false, features = ["rwh_06", "x11"] }
softbuffer = { version = "=0.4.8", default-features = false, features = ["x11", "x11-dlopen"] }
windows = { version = "*", features = ["Win32_Foundation", "Win32_UI_WindowsAndMessaging"] }
