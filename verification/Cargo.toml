[package]
name = "pacman_conf"
version = "0.1.0"
edition = "2021"
publish = false

[dependencies]
libadwaita = "*"
