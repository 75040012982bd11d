[package]
name = "doom_fire"
version = "0.1.0"
edition = "2021"
publish = false

[dependencies]
minifb = "0.13"
rand = "0.7"
