[package]
name = "skmotion"
version = "0.1.0"
edition = "2021"
publish = false

[dependencies]
clap = { version = "=3.2.25", features = ["cargo"] }
scrap = "=0.5.0"
vpx-encode = { version = "=0.6.2", features = ["vp9"] }
webm = "=1.1.2"
