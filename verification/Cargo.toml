[package]
name = "aish_shell"
version = "0.1.0"
edition = "2021"
publish = false

[dependencies]
regex = "1"
serde_json = "1"
unicode-width = "*"
chrono = "0.4"
crossterm = "*"
libc = "0.2"
nix = { version = "*", features = ["term", "signal", "fs"] }
parking_lot = "*"
uuid = { version = "1", features = ["v4"] }
dirs = "*"
sysinfo = { version = "*", default-features = false, features = ["system"] }
