[package]
name = "mycelium"
version = "0.1.0"
edition = "2021"
publish = false

[dependencies]
byteorder = "1"
minecraft-varint = "*"
hematite-nbt = "0.5"
