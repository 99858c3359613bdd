[package]
name = "monitor"
version = "0.2.0"
edition = "2021"
publish = false

[dependencies]
clap = "*"
hostname = "*"
libc = "*"
uname = "*"
uptime_lib = "*"
systemstat = "*"
