[package]
name = "futex"
version = "0.1.0"
edition = "2021"
publish = false

[dependencies]
spin = { version = "*", default-features = false, features = ["mutex", "spin_mutex"] }
linkme = "*"
lazy_static = "*"
log = "*"

[dev-dependencies]
libc = "*"
