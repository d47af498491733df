[package]
name = "usage_view"
version = "0.1.0"
edition = "2021"
publish = false

[dependencies]
petgraph = "=0.4.13"
tui = { version = "=0.6.2", default-features = false }
unicode-segmentation = "=1.13.3"
unicode-width = "=0.1.14"
