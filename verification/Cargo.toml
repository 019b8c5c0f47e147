[package]
name = "mini-tmux"
version = "0.1.0"
edition = "2021"
publish = false

[dependencies]
nix = { version = "=0.29.0", features = ["fs", "poll", "process", "signal", "socket", "term"] }
signal-hook = "=0.3.18"
