[package]
name = "pixi_core"
version = "0.1.0"
edition = "2021"
publish = false

[dependencies]
indexmap = "2"
itertools = "*"
clap = { version = "4", features = ["derive"] }
