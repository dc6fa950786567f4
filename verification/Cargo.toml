[package]
name = "neonforge"
version = "0.1.0"
edition = "2021"
publish = false

[dependencies]
embedded-sdmmc = "=0.5.0"
linked_list_allocator = "=0.10.6"
x86_64 = { version = "=0.15.5", default-features = false, features = ["instructions"] }
