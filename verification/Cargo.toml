[package]
name = "audio_split"
version = "0.1.0"
edition = "2021"
publish = false

[dependencies]
flacenc = "*"
iced = { version = "0.13", default-features = false, features = ["canvas", "tiny-skia", "tokio"] }
metaflac = "0.2"
symphonia = { version = "0.5", default-features = false, features = ["flac", "pcm", "wav"] }
