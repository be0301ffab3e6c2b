[package]
name = "auto_wallpaper"
version = "0.1.0"
edition = "2021"
publish = false

[dependencies]
anyhow = "=1.0.104"
chrono = "=0.4.45"
hyprland = "=0.4.0-beta.3"
tokio = { version = "=1.54.1", features = ["macros", "rt", "time", "net", "io-util"] }
xdg = "=2.5.2"
