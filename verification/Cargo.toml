[package]
name = "askama_minify"
version = "0.1.0"
edition = "2021"
publish = false

[dependencies]
lightningcss = "=1.0.0-alpha.72"
clap = { version = "4", features = ["derive"] }
walkdir = "2"
