[package]
name = "bb_patcher"
version = "0.1.0"
edition = "2021"
publish = false

[dependencies]
sha2 = "*"
const-hex = "*"
clap = { version = "*", features = ["derive"] }
anyhow = "*"
