[package]
name = "extended_ui"
version = "0.1.0"
edition = "2021"
publish = false

[dependencies]
arboard = "3"
rfd = { version = "0.15", default-features = false, features = ["xdg-portal", "tokio"] }
