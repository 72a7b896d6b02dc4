[package]
name = "no_internal_kbd"
version = "0.1.0"
edition = "2021"
publish = false

[dependencies]
anyhow = "*"
evdev = "*"
nix = { version = "*", features = ["user"] }
tokio = { version = "*", features = ["rt", "macros", "net"] }
udev = "*"
