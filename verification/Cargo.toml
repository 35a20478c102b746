[package]
name = "waemom"
version = "0.1.0"
edition = "2021"
publish = false

[dependencies]
bootloader_api = "0.11"
heapless = "0.8"
lazy_static = { version = "1", features = ["spin_no_std"] }
pc-keyboard = "0.7"
pic8259 = "0.11"
spin = "0.9"
uart_16550 = { version = "0.3", default-features = false }
x86_64 = { version = "0.15", default-features = false, features = ["instructions"] }
