[package]
name = "mermaid_quicklook"
version = "0.1.0"
edition = "2021"
publish = false

[dependencies]
anyhow = "1"
crossbeam-channel = "0.5"
libc = "0.2"
lsp-server = "0.7"
lsp-types = "0.95"
serde = { version = "1", features = ["derive"] }
serde_json = "1"
tempfile = "3"
wait-timeout = "0.2"
which = "*"
zed_extension_api = "*"
