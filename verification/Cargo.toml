[package]
name = "rood"
version = "0.1.0"
edition = "2021"
publish = false

[dependencies]
bootloader_api = "=0.11.17"
x86_64 = { version = "=0.15.5", default-features = false, features = ["instructions"] }
spinning_top = "=0.3.1"
linked_list_allocator = "=0.10.6"
