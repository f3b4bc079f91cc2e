[package]
name = "lspresso_shot"
version = "0.1.0"
edition = "2021"
publish = false

[dependencies]
anstyle = "1"
anyhow = "1"
flexi_logger = "0.29"
log = "0.4"
lsp-server = "0.7"
lsp-types = "0.97"
rand = "0.9"
serde = { version = "1", features = ["derive"] }
serde_json = "1"
thiserror = "2"
