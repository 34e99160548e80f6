[package]
name = "audio_general"
version = "0.1.0"
edition = "2021"
publish = false

[dependencies]
petgraph = "0.6"
dasp = { version = "0.11", features = ["signal", "interpolate", "interpolate-linear"] }
cpal = "0.15"
audrey = "0.3"
rustfft = "6"
minimp3 = "0.5"
