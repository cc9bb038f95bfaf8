[package]
name = "macos_epoll"
version = "0.1.0"
edition = "2021"
publish = false

[dependencies]
bitflags = "=1.3.2"
libc = "=0.2.191"
