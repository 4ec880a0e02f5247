[package]
name = "rf_signal"
version = "0.1.0"
edition = "2021"
publish = false

[dependencies]
symphonia = { version = "0.5", default-features = false, features = ["flac"] }
rustfft = "6"
serde = { version = "1", features = ["derive"] }
serde_json = "1"
dirs = "6"
eframe = { version = "0.31", default-features = false, features = ["default_fonts", "glow", "x11"] }
rfd = { version = "0.15", default-features = false, features = ["xdg-portal", "tokio"] }
