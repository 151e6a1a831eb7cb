[package]
name = "esp_deck"
version = "0.1.0"
edition = "2021"
publish = false

[dependencies]
keycode = "*"
serde = { version = "1", features = ["derive"] }
serde_json = "1"
