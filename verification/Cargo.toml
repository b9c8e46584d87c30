[package]
name = "hyprps"
version = "0.1.0"
edition = "2021"
publish = false

[dependencies]
log = "*"
nix = { version = "*", features = ["poll"] }
serde = { version = "*", features = ["derive"] }
systemd-journal-logger = "*"
toml = "*"
udev = "*"
