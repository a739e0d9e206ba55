[package]
name = "serial_key"
version = "1.3.0"
edition = "2021"
publish = false

[dependencies]
clap = "2"
crc = "1"
rand = "0.4"
regex = "1"
serde = "1"
serde_derive = "1"
serde_json = "1"
