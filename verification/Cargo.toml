[package]
name = "dictation_core"
version = "0.1.0"
edition = "2021"
publish = false

[dependencies]
dirs = "*"
reqwest = { version = "*", features = ["blocking"] }
whisper-rs = "*"
