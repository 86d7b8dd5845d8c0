[package]
name = "elf2bin"
version = "0.1.0"
edition = "2021"
publish = false

[dependencies]
byteorder = "1"
clap = "2"
crc = "1"
error-chain = "0.12"
sha2 = "0.8"
tempdir = "0.3"
