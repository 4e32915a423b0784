[package]
name = "ransom_tts"
version = "0.1.0"
edition = "2021"
publish = false

[dependencies]
wav = "*"
csound = "*"
