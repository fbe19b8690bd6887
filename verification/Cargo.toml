[package]
name = "ice_ducks"
version = "0.1.0"
edition = "2021"
publish = false

[dependencies]
renet = "*"
