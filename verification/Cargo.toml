[package]
name = "spiderbutter"
version = "0.1.0"
edition = "2021"
publish = false

[dependencies]
flate2 = "1"
rustls = "0.19"
async-tls = "0.11"
async-std = "1"
structopt = "0.3"
inotify = "0.10"
libc = "0.2"
failure = "0.1"
