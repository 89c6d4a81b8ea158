[package]
name = "wav_stream"
version = "0.1.0"
edition = "2021"
publish = false

[dependencies]
reqwest = { version = "*", default-features = false }
rodio = { version = "0.20", default-features = false }
stream-download = "*"
thiserror = "*"
