[package]
name = "mpv_remote"
version = "0.1.0"
edition = "2021"
publish = false

[dependencies]
mpv = "0.2"
