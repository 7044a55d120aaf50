[package]
name = "niri_integration"
version = "0.1.0"
edition = "2021"
publish = false

[dependencies]
clap = { version = "=4.6.7", features = ["derive"] }
daemonize = "=0.5.0"
neovim-lib = "=0.6.1"
niri-ipc = "=26.4.0"
nix = { version = "=0.31.3", features = ["user"] }
regex = "=1.13.1"
rmp = "=0.8.10"
serde = { version = "=1.0.229", features = ["derive"] }
serde_json = "=1.0.151"
