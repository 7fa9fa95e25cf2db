[package]
name = "swww_daemon"
version = "0.1.0"
edition = "2021"
publish = false

[dependencies]
libc = "=0.2.191"
log = { version = "=0.4.35", features = ["std"] }
rustix = { version = "1", features = ["event", "fs", "net"] }
sd-notify = "=0.4.5"
waybackend = "0.4"
