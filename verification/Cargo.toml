[package]
name = "interminai"
version = "0.1.0"
edition = "2021"
publish = false

[dependencies]
serde = { version = "1", features = ["derive"] }
serde_json = "1"
clap = { version = "4", features = ["derive"] }
nix = { version = "0.26", features = ["term", "process", "signal", "fs", "poll", "socket"] }
rustix = { version = "0.38", features = ["termios", "process", "net"] }
fork = "*"
tempfile = "3"
anyhow = "1"
