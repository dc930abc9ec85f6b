[package]
name = "lldb_attach"
version = "0.1.0"
edition = "2021"
publish = false

[dependencies]
serde_json = "*"
zed_extension_api = "*"
