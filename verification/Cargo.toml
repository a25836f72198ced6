[package]
name = "ferry"
version = "0.1.0"
edition = "2021"
publish = false

[dependencies]
anyhow = "1"
chrono = "0.4"
same-file = "1"
sha2 = "0.10"
suppaftp = "*"
zed_extension_api = "*"
