[package]
name = "clipboard_stream"
version = "0.1.0"
edition = "2021"
publish = false

[dependencies]
futures = "0.3"
thiserror = "*"
objc2 = "*"
objc2-app-kit = "*"
