[package]
name = "bootimage"
version = "0.1.0"
edition = "2021"
publish = false

[dependencies]
byteorder = "=1.5.0"
cargo_metadata = "=0.5.8"

[dev-dependencies]
xmas-elf = "=0.10.0"
