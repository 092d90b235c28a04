[package]
name = "jsdoc_md"
version = "0.1.0"
edition = "2021"
publish = false

[dependencies]
glob = "0.3"
jsdoc = "*"
regex = "1"
swc_common = "*"
