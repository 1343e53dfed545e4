[package]
name = "asr_debugger"
version = "0.1.0"
edition = "2021"
publish = false

[dependencies]
hdrhistogram = "*"
indexmap = "*"
mime_guess = "*"
arc-swap = "*"
atomic = "*"
