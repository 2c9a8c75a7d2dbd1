[package]
name = "uploader"
version = "0.1.0"
edition = "2021"
publish = false

[dependencies]
byteorder = "=1.5.0"
serial = "=0.4.0"
volatile = "=0.2.7"
