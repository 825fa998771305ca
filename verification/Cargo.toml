[package]
name = "rendering"
version = "0.1.0"
edition = "2021"
publish = false

[dependencies]
pulldown-cmark = { version = "=0.2.0", default-features = false }
