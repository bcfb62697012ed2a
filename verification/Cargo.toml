[package]
name = "dongos"
version = "0.1.0"
edition = "2021"
publish = false

[dependencies]
x86_64 = { version = "=0.15.5", default-features = false, features = ["instructions"] }
bootloader = { version = "=0.9.35", features = ["map_physical_memory"] }
spin = "=0.5.2"
lazy_static = "=1.5.1"
linked_list_allocator = "=0.10.6"
pc-keyboard = "=0.9.0"
pic8259_simple = "=0.1.1"
