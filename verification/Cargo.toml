[package]
name = "rom_ext_signer"
version = "0.1.0"
edition = "2021"
publish = false

[dependencies]
mundane = "*"
serde = "*"
serde_derive = "*"
serde-hjson = "*"
