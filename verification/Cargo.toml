[package]
name = "html2md_confluence"
version = "0.1.0"
edition = "2021"
publish = false

[dependencies]
html2md = "0.2"
quick-xml = "*"
regex = "1"
urlencoding = "2"
