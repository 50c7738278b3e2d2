[package]
name = "gotos"
version = "0.1.0"
edition = "2021"
publish = false

[dependencies]
anyhow = "1"
thiserror = "2"
linked_list_allocator = "0.10"
