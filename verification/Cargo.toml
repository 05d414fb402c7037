[package]
name = "vl53l5cx_uld"
version = "0.1.0"
edition = "2021"
publish = false

[dependencies]
esp-hal = { version = "0.23", features = ["esp32c3"] }
