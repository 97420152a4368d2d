[package]
name = "lowlua"
version = "0.1.0"
edition = "2021"
publish = false

[dependencies]
lua53-sys = "*"
libc = "*"
