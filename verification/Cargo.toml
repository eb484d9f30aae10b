[package]
name = "sshs"
version = "0.1.0"
edition = "2021"
publish = false

[dependencies]
anyhow = "1"
clap = { version = "4.5", features = ["derive"] }
crossterm = "0.28"
fuzzy-matcher = "0.3"
handlebars = "6"
itertools = "0.13"
ratatui = "0.29"
regex = "1"
serde = { version = "1", features = ["derive"] }
shellexpand = "3"
shlex = "1"
tui-input = "0.11"
unicode-width = "0.2"
