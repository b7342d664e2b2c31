[package]
name = "stentor"
version = "0.1.0"
edition = "2021"
publish = false

[dependencies]
ab_glyph = "*"
anyhow = "1"
async-channel = "2"
clap = { version = "4", features = ["derive"] }
clap_complete = "4"
fontconfig = "*"
gtk4 = "*"
image = { version = "0.25", default-features = false, features = ["png"] }
indicatif = "*"
libadwaita = "*"
libpulse-binding = "2"
libpulse-simple-binding = "2"
log = "0.4"
parking_lot = "0.12"
regex = "1"
reqwest = { version = "0.12", features = ["blocking"] }
serde = { version = "1", features = ["derive"] }
serde_json = "1"
tokio = { version = "1", features = ["full"] }
toml = "*"
tracing = "0.1"
tracing-subscriber = { version = "0.3", features = ["env-filter"] }
whisper-rs = "0.15"
xdg = "3"
