[package]
name = "reposerve"
version = "0.1.0"
edition = "2021"
publish = false

[dependencies]
chrono = "*"
percent-encoding = "*"
sanitize-filename = "*"
size_format = "*"
v_htmlescape = "*"
serde = { version = "*", features = ["derive"] }
serde_yaml = "*"
argh = "*"
tempdir = "*"
