[package]
name = "trollstov"
version = "0.1.0"
edition = "2021"
publish = false

[dependencies]
fastrand = "=2.5.0"
textwrap = "=0.16.4"
seahash = "=4.1.0"
nucleo-matcher = "=0.3.1"
unicode-segmentation = "=1.13.3"
unicode-width = "=0.2.3"
indexmap = "=2.14.2"
clap = { version = "=4.6.7", features = ["derive"] }
walkdir = "=2.5.0"
lofty = "=0.22.4"
directories = "=6.0.0"
toml = "=0.8.23"
serde = { version = "=1.0.229", features = ["derive"] }
ahash = "=0.8.12"
ratatui = { version = "=0.30.2", default-features = false, features = ["crossterm"] }
syntect = { version = "5", default-features = false, features = ["default-syntaxes", "default-themes", "regex-fancy"] }
