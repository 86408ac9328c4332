[package]
name = "lyrics_lrc"
version = "0.1.0"
edition = "2021"
publish = false

[dependencies]
serde_json = "1"
argh = "*"
async-compat = "*"
reqwest = { version = "*", default-features = false }
smol-macros = "*"
