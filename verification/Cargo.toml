[package]
name = "my_kernel"
version = "0.1.0"
edition = "2021"
publish = false

[dependencies]
x86_64 = { version = "=0.14.13", default-features = false, features = ["instructions"] }
bootloader = { version = "=0.9.35", features = ["map_physical_memory"] }
volatile = "=0.2.7"
spin = "=0.5.2"
lazy_static = { version = "=1.5.1", features = ["spin_no_std"] }
linked_list_allocator = "0.10"
