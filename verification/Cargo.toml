[package]
name = "markdown_linkify"
version = "0.1.0"
edition = "2021"
publish = false

[dependencies]
regex = "*"
urlencoding = "*"
textwrap = "*"
pulldown-cmark = "*"
pulldown-cmark-to-cmark = "*"
serde = { version = "*", features = ["derive"] }
serde_json = "*"
toml = "*"
clap = { version = "*", features = ["derive"] }
anyhow = "*"
tempfile = "*"
reqwest = { version = "*", default-features = false, features = ["blocking"] }
select = "*"
ignore = "*"
path-dedot = "*"
