[package]
name = "usb2snes_splits"
version = "0.1.0"
edition = "2021"
publish = false

[dependencies]
serde_json = "1"
