[package]
name = "bomberman"
version = "0.1.0"
edition = "2021"
publish = false

[dependencies]
bevy = { version = "=0.18.1", default-features = false, features = ["std", "keyboard"] }
rand = "=0.10.3"
