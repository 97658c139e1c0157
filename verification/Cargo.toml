[package]
name = "rlease"
version = "0.1.0"
edition = "2021"
publish = false

[dependencies]
dhcproto = "=0.15.0"
libc = "=0.2.191"
