[package]
name = "toyos"
version = "0.1.0"
edition = "2021"
publish = false

[dependencies]
bootloader = { version = "0.9", features = ["map_physical_memory"] }
lazy_static = { version = "1", features = ["spin_no_std"] }
pic8259 = "0.10"
pkg-version = "1"
spin = "0.5"
volatile = "0.2"
x86_64 = { version = "0.14", default-features = false, features = ["instructions"] }
