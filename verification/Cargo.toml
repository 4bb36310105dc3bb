[package]
name = "echo_ffmpeg_player"
version = "0.1.0"
edition = "2021"
publish = false

[dependencies]
serde_json = "1"
napi = { version = "2", features = ["napi4", "serde-json"] }
napi-derive = "2"
ffmpeg_audio = "*"
