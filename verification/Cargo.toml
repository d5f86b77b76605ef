[package]
name = "display_map"
version = "0.1.0"
edition = "2021"
publish = false

[dependencies]
clap = { version = "4", features = ["cargo"] }
edid-rs = "0.1"
regex = "1"
