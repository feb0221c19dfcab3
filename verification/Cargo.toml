[package]
name = "hls_audio_server"
version = "0.1.0"
edition = "2021"
publish = false

[dependencies]
anyhow = "1"
byteorder = "1"
chrono = "0.4"
fdk-aac = "*"
hyper = { version = "0.14", features = ["server", "http1"] }
id3 = "1"
m3u8-rs = "5"
tokio = { version = "1", features = ["rt-multi-thread", "macros", "net", "time"] }
wav = "*"
