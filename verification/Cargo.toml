[package]
name = "dr_script"
version = "0.1.0"
edition = "2021"
publish = false

[dependencies]
rand = "0.9"
colored = "2"
clap = { version = "4", features = ["derive"] }
lazy_static = "1"
