[package]
name = "wsl2_ip_host"
version = "0.1.0"
edition = "2021"
publish = false

[dependencies]
faccess = "0.2"
home = "0.5"
native-windows-gui = "1.0"
notify-rust = "4"
serde = { version = "1", features = ["derive"] }
serde_json = "1"
winapi = { version = "0.3", features = ["shellapi"] }
