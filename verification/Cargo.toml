[package]
name = "os_rust"
version = "0.1.0"
edition = "2021"
publish = false

[dependencies]
pc-keyboard = "=0.7.0"
pic8259 = "=0.11.0"
spin = "=0.9.9"
lazy_static = "=1.5.1"
volatile = "=0.2.7"

[dependencies.x86_64]
version = "=0.15.5"
default-features = false
features = ["instructions"]
