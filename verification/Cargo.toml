[package]
name = "open_in_mpv"
version = "0.1.0"
edition = "2021"
publish = false

[dependencies]
percent-encoding = "2"
url = "2"
