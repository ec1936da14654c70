[package]
name = "flipper"
version = "0.1.0"
edition = "2021"
publish = false

[dependencies]
clap = "2.33"
failure = "0.1"
libc = "0.2"
