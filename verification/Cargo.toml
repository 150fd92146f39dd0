[package]
name = "audio_bridge"
version = "0.1.0"
edition = "2021"
publish = false

[dependencies]
ringbuf = "0.4"
tokio = { version = "1", features = ["sync", "time", "rt"] }
serde = { version = "1", features = ["derive"] }
thiserror = "1"
log = "0.4"
cpal = "0.15"

[dev-dependencies]
serde_json = "1"
