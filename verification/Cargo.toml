[package]
name = "river_bsp_layout"
version = "2.1.0"
edition = "2021"
publish = false

[dependencies]
clap = { version = "*", features = ["derive"] }
river-layout-toolkit = "*"
