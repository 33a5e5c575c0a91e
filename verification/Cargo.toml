[package]
name = "arkanoid"
version = "0.1.0"
edition = "2021"
publish = false

[dependencies]
collider = "=0.2.1"
