[package]
name = "koto"
version = "0.1.0"
edition = "2021"
publish = false

[dependencies]
fuse = "0.3"
libc = "0.2"
time = "0.1"
