[package]
name = "efi_async"
version = "0.1.0"
edition = "2021"
publish = false

[dependencies]
atomic-option = "0.1"
futures = "0.3"
r-efi = "*"
