[package]
name = "bbcov"
version = "0.1.0"
edition = "2021"
publish = false

[dependencies]
anyhow = "*"
capstone = "*"
elf = "*"
linux-personality = "*"
nix = { version = "*", features = ["ptrace", "process", "personality", "signal"] }
