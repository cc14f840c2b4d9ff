[package]
name = "phoneme_diff"
version = "0.1.0"
edition = "2021"
publish = false

[dependencies]
anyhow = "1"
jlabel = "*"
jpreprocess = { version = "*", features = ["naist-jdic"] }

[dev-dependencies]
lazy-regex = "*"
