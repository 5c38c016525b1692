[package]
name = "enginesound_gui"
version = "0.1.0"
edition = "2021"
publish = false

[dependencies]
chrono = "=0.4.45"
crossbeam-channel = "=0.5.17"
eframe = { version = "=0.24.1", default-features = false, features = ["x11"] }
native-dialog = "=0.6.4"
parking_lot = "=0.12.5"
ron = "=0.8.1"
serde = "=1.0.229"
serde_json = "=1.0.154"
