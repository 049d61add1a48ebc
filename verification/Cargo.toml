[package]
name = "pegball"
version = "0.1.0"
edition = "2021"
publish = false

[dependencies]
bevy = { version = "=0.11.3", default-features = false }
bevy_rapier2d = { version = "=0.22.0", default-features = false, features = ["dim2", "headless"] }
fastrand = "=2.5.0"
