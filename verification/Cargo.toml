[package]
name = "md_ansi"
version = "0.1.0"
edition = "2021"
publish = false

[dependencies]
ansi_term = "0.12"
pulldown-cmark = { version = "0.9", default-features = false }
syntect = { version = "5", default-features = false, features = ["default-syntaxes", "default-themes", "regex-fancy"] }
term_size = "0.3"
unicode-segmentation = "1"
unicode-width = "0.1"
