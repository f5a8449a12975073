[package]
name = "joust_physics"
version = "0.1.0"
edition = "2021"
publish = false

[dependencies]
modulo = "=0.1.2"
cgmath = "=0.18.0"
bevy = { version = "0.12", default-features = false }
