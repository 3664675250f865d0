[package]
name = "arch-install-manager"
version = "0.1.0"
edition = "2021"
publish = false

[dependencies]
alpm = "*"
anyhow = "1"
chrono = "0.4"
crossterm = "*"
libc = "0.2"
nix = { version = "*", features = ["socket", "user", "uio", "fs"] }
pacmanconf = "*"
serde = { version = "1", features = ["derive"] }
serde_json = "1"
