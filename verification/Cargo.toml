[package]
name = "hostlist"
version = "0.1.0"
edition = "2021"
publish = false

[dependencies]
fuzzy-matcher = "0.3"
anyhow = "1"
crossterm = "0.28"
ratatui = "0.29"
