[package]
name = "source_concat"
version = "0.1.0"
edition = "2021"
publish = false

[dependencies]
anyhow = "1"
clap = { version = "4", features = ["derive"] }
colored = "2"
glob = "0.3"
ignore = "0.4"
indicatif = "0.17"
open = "5"
