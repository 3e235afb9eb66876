[package]
name = "speakiput"
version = "0.1.0"
edition = "2021"
publish = false

[dependencies]
ashpd = { version = "=0.13.13", features = ["global_shortcuts"] }
async-trait = "=0.1.92"
chrono = { version = "=0.4.45", features = ["serde"] }
cpal = "=0.16.0"
futures-util = { version = "=0.3.34", default-features = false, features = ["std"] }
hound = "=3.5.1"
keyring = "=3.6.3"
regex = "=1.13.1"
reqwest = { version = "=0.12.28", default-features = false, features = ["json"] }
serde = { version = "=1.0.229", features = ["derive"] }
serde_json = "=1.0.154"
thiserror = "=2.0.21"
tokio = { version = "=1.54.1", features = ["full"] }
toml = "=0.8.23"
tracing = "=0.1.44"
tracing-subscriber = { version = "=0.3.23", features = ["env-filter"] }
uuid = { version = "=1.29.0", features = ["serde", "v4"] }
whisper-rs = "=0.15.1"
xkb-type = { version = "=0.1.5", features = ["wayland-vk"] }
