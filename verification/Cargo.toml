[package]
name = "ezinput"
version = "0.1.0"
edition = "2021"
publish = false

[dependencies]
bevy = { version = "=0.7.0", default-features = false }
strum_macros = "=0.24.3"
pin-project-internal = "~1.0.0"
