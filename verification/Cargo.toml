[package]
name = "spaceman"
version = "0.1.0"
edition = "2021"
publish = false

[dependencies]
rand = "0.8"
serde = { version = "1", features = ["derive"] }
serde_json = "1"
slotmap = { version = "1", features = ["serde"] }
rapier3d = "0.18"
nalgebra = { version = "0.32", features = ["rand"] }
polling = "2"
spin_sleep = "1"
tobj = "4"
cgmath = "0.18"
noise = "0.8"
