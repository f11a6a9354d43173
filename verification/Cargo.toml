[package]
name = "tree-sitter-dynamic"
version = "0.1.0"
edition = "2021"
publish = false

[dependencies]
tree-sitter = "0.22"
tree-sitter-highlight = "0.22"
libloading = "0.8"
libc = "0.2"
eyre = "0.6"
color-eyre = "0.6"
serde = { version = "1", features = ["derive"] }
serde_json = "1"
serde_with = "3"
toml = "0.8"
clap = { version = "4", features = ["derive"] }
is-terminal = "0.4"
magic = "0.16"
