[package]
name = "rusty_open"
version = "0.1.0"
edition = "2021"
publish = false

[dependencies]
url = "*"
shlex = "*"
detect-desktop-environment = "*"
dirs = "*"
rfd = "*"
