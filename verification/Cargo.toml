[package]
name = "rusty_snake"
version = "0.1.0"
edition = "2021"
publish = false

[dependencies]
rand = "0.9"
minifb = "0.27"
clap = { version = "4", features = ["derive"] }
