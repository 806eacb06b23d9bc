[package]
name = "ament_install"
version = "0.1.0"
edition = "2021"
publish = false

[dependencies]
anyhow = "*"
cargo-manifest = "*"
pico-args = "*"
