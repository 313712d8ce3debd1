[package]
name = "hyprsets"
version = "0.1.0"
edition = "2021"
publish = false

[dependencies]
anyhow = "=1.0.104"
clap = { version = "=4.6.7", features = ["derive"] }
fs2 = "=0.4.3"
hyprland = "=0.4.0-beta.2"
serde = { version = "=1.0.229", features = ["derive"] }
toml = "=0.8.23"
unicode-width = "=0.1.14"
