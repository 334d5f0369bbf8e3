[package]
name = "vim-matlab"
version = "0.1.0"
edition = "2021"
publish = false

[dependencies]
async-trait = "0.1"
clap = { version = "4", features = ["derive"] }
libc = "0.2"
nix = { version = "0.30", features = ["fs", "process", "signal", "term", "user"] }
tokio = { version = "1", features = ["full"] }
