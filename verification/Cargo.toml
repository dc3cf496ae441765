[package]
name = "rcore_kernel"
version = "0.1.0"
edition = "2021"
publish = false

[dependencies]
xmas-elf = "0.9"
spin = "0.9"
log = "0.4"
virtio-drivers = "0.1"
buddy_system_allocator = "0.6"
polyhal = "0.1"
