[package]
name = "edge_tts_studio"
version = "0.1.0"
edition = "2021"
publish = false

[dependencies]
directories = "6"
edge-tts-rust = "0.1"
encoding_rs = "0.8"
futures-util = "0.3"
libc = "0.2"
proxy_cfg = "0.4"
reqwest = { version = "0.12", default-features = false, features = ["blocking", "rustls-tls"] }
rusty_mp3 = "*"
serde = { version = "1", features = ["derive"] }
serde_json = "1"
symphonia = { version = "0.5", features = ["all"] }
tokio = { version = "1", features = ["rt-multi-thread", "sync", "macros", "time"] }
url = "2"
