[package]
name = "libbinder"
version = "0.1.0"
edition = "2021"
publish = false

[dependencies]
bytemuck = "1"
page_size = "*"
nix = { version = "*", features = ["ioctl", "poll", "fs", "mman", "process"] }
