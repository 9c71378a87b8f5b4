[package]
name = "monitor_toggle_tray"
version = "0.1.0"
edition = "2021"
publish = false

[dependencies]
serde = { version = "1", features = ["derive"] }
serde_json = "1"
toml = "0.8"
fs2 = "0.4"
ksni = "0.2"
notify-rust = "4"
gtk4 = "0.9"
