[package]
name = "anstyle_html"
version = "0.1.0"
edition = "2021"
publish = false

[dependencies]
anstyle = "1"
anstyle-lossy = "1"
anstyle-parse = "0.2"
html-escape = "0.2"
unicode-width = "0.1"
