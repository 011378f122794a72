[package]
name = "hostinfo"
version = "0.1.0"
edition = "2021"
publish = false

[dependencies]
sysinfo = "*"
whoami = "*"
wgpu = { version = "*", default-features = false }
