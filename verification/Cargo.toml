[package]
name = "community_sim"
version = "0.1.0"
edition = "2021"
publish = false

[dependencies]
rand = "0.8"
noise = "0.8"
serde = { version = "1", features = ["derive"] }
serde_yaml = "0.9"
clap = { version = "4", features = ["derive"] }
log = "0.4"
fern = "0.6"
chrono = "0.4"
anyhow = "1"
legion = { version = "0.4", default-features = false }
sdl2 = { version = "0.37", features = ["ttf"] }
