[package]
name = "evtx"
version = "0.1.0"
edition = "2021"
publish = false

[dependencies]
byteorder = "1"
crc = "1"
encoding = "0.2"
hexdump = "0.1"
log = "0.4"
