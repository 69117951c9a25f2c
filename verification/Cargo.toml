[package]
name = "virtual_devices"
version = "0.1.0"
edition = "2021"
publish = false

[dependencies]
image = "0.24"
nix = { version = "0.29", features = ["ioctl", "fs"] }
lazy_static = "1.4"
runas = "1"
winreg = "0.52"
log = "0.4"
