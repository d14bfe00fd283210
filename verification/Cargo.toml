[package]
name = "syshealth"
version = "0.1.0"
edition = "2021"
publish = false

[dependencies]
nix = { version = "*", features = ["fs"] }
sysinfo = "*"
