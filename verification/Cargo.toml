[package]
name = "roguelike"
version = "0.1.0"
edition = "2021"
publish = false

[dependencies]
rand = "0.3"
rustc-serialize = "0.3"
tcod = "*"
