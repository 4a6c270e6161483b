[package]
name = "dworld"
version = "0.1.0"
edition = "2021"
publish = false

[dependencies]
rand = "=0.7.3"
tcod = "=0.15.0"
rltk = "=0.8.7"
