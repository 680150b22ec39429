[package]
name = "loop_subdivision"
version = "0.1.0"
edition = "2021"
publish = false

[dependencies]
glam = "*"
hashbrown = "*"
