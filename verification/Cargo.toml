[package]
name = "asm_lsp"
version = "0.1.0"
edition = "2021"
publish = false

[dependencies]
anyhow = "1"
compile_commands = "=0.3.0"
log = "0.4"
lsp-server = "=0.7.9"
lsp-textdocument = "=0.5.0"
lsp-types = "=0.97.0"
serde = { version = "1", features = ["derive"] }
serde_json = "1"
tree-sitter = "=0.22.6"
tree-sitter-asm = "=0.22.6"
