[package]
name = "usbip_core"
version = "0.1.0"
edition = "2021"
publish = false

[dependencies]
bincode = "2"
libc = "0.2"
udev = "0.9"
