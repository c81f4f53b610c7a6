[package]
name = "tt"
version = "0.1.0"
edition = "2021"
publish = false

[dependencies]
anyhow = "1"
byteorder = "1"
log = "0.4"
nix = "0.26"
serde = { version = "1", features = ["derive"] }
serde_json = "1"
signal-hook = "0.3"
simplelog = "0.12"
termion = "*"
