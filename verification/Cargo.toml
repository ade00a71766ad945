[package]
name = "mprober_lib"
version = "0.1.0"
edition = "2021"
publish = false

[dependencies]
regex = "1"
libc = "0.2"
page_size = "0.6"
chrono = "0.4"
