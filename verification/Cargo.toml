[package]
name = "wordrep"
version = "0.1.0"
edition = "2021"
publish = false

[dependencies]
astro-float = "0.9"
rand = "=0.8.8"
clap = { version = "=4.6.7", features = ["derive"] }
