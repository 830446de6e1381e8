[package]
name = "momentous"
version = "0.1.0"
edition = "2021"
publish = false

[dependencies]
zoneinfo_compiled = "*"
libc = "*"
