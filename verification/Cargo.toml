[package]
name = "yaxum"
version = "0.1.0"
edition = "2021"
publish = false

[dependencies]
yaxi = { version = "=0.1.57", features = ["xinerama"] }
