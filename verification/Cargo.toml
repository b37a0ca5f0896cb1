[package]
name = "testwatch"
version = "0.1.0"
edition = "2021"
publish = false

[dependencies]
inotify = { version = "*", default-features = false }
nix = { version = "*", features = ["signal"] }
