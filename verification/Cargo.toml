[package]
name = "rust_audio_shenanigans"
version = "0.1.0"
edition = "2021"
publish = false

[dependencies]
cpal = "0.15"
midly = "0.5"
tokio = { version = "1", default-features = false, features = ["sync"] }
