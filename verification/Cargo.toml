[package]
name = "deflake"
version = "0.1.0"
edition = "2021"
publish = false

[dependencies]
clap = { version = "4", features = ["derive"] }
crossterm = { version = "0.28", default-features = false }
rayon = "1"
