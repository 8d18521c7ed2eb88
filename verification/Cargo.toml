[package]
name = "td_shim"
version = "0.1.0"
edition = "2021"
publish = false

[dependencies]
linked_list_allocator = "*"
log = "*"
scroll = { version = "*", features = ["derive"] }
x86 = "*"
