[package]
name = "hsh_core"
version = "0.1.0"
edition = "2021"
publish = false

[dependencies]
nix = { version = "0.30", features = ["fs", "process"] }
nom = "7"
derive_more = { version = "2", features = ["debug", "display", "error"] }
