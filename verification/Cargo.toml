[package]
name = "tree_sitter_cli"
version = "0.1.0"
edition = "2021"
publish = false

[dependencies]
anstyle = "=1.0.14"
anyhow = "=1.0.104"
clap = { version = "=4.6.7", features = ["derive", "cargo"] }
clap_complete = "=4.6.11"
clap_complete_nushell = "=4.6.2"
log = "=0.4.35"
rand = "=0.10.3"
regex = "=1.13.1"
serde = { version = "=1.0.229", features = ["derive"] }
serde_json = "=1.0.154"
tree-sitter = "=0.27.1"
tree-sitter-config = "=0.27.1"
tree-sitter-highlight = "=0.27.1"
tree-sitter-loader = "=0.27.1"
