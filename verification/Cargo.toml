[package]
name = "zim"
version = "0.1.0"
edition = "2021"
publish = false

[dependencies]
similar = "2"
fuzzy-matcher = "0.3"
rand = "0.8"
anyhow = "1"
clap = { version = "4", features = ["derive"] }
crossterm = "0.25"
tui = { version = "0.19", default-features = false, features = ["crossterm"] }
dirs = "5"
serde = { version = "1", features = ["derive"] }
toml = "0.8"
walkdir = "2"
ignore = "0.4"
grep = "0.3"
grep-regex = "0.1"
grep-searcher = "0.1"
regex = "1"
syntect = { version = "5", default-features = false, features = ["default-fancy"] }
