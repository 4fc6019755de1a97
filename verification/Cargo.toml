[package]
name = "simcore"
version = "0.1.0"
edition = "2021"
publish = false

[dependencies]
rand = "*"
hecs = "*"
rapier2d = "*"
serde = { version = "*", features = ["derive"] }
serde_json = "*"
