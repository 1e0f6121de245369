[package]
name = "cargo-when"
version = "0.1.0"
edition = "2021"
publish = false

[dependencies]
semver = "0.9"
clap = "2"
