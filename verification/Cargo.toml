[package]
name = "icy_view"
version = "0.1.0"
edition = "2021"
publish = false

[dependencies]
anyhow = "=1.0.104"
clap = { version = "=4.6.7", features = ["derive"] }
directories = "=5.0.1"
eframe = { version = "=0.23.0", default-features = false, features = ["glow", "default_fonts"] }
egui_extras = { version = "=0.23.0", features = ["image", "svg"] }
egui-notify = "=0.10.0"
github_release_check = "*"
image = { version = "0.24", default-features = false, features = ["png", "jpeg", "gif", "bmp"] }
log = "=0.4.34"
memmap = "=0.7.0"
semver = "=1.0.28"
zip = { version = "=9.1.0", default-features = false, features = ["deflate"] }
