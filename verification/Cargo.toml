[package]
name = "story_engine"
version = "0.1.0"
edition = "2021"
publish = false

[dependencies]
float-cmp = { version = "*", default-features = false }
regex = "1"
tinyexpr = "*"
