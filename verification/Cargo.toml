[package]
name = "netconfig"
version = "0.1.0"
edition = "2021"
publish = false

[dependencies]
nix = { version = "0.29", features = ["net", "socket", "ioctl"] }
netlink-sys = "0.8"
rand = "0.8"
libc = "0.2"
