[package]
name = "gdscript-formatter"
version = "0.1.0"
edition = "2021"
publish = false

[dependencies]
tree-sitter = "0.25"
tree-sitter-gdscript = "*"
