[package]
name = "vox"
version = "0.1.0"
edition = "2021"
publish = false

[dependencies]
anyhow = "1"
clap = { version = "4", features = ["derive"] }
cpal = "0.15"
ctrlc = { version = "3", features = ["termination"] }
env_logger = "0.11"
log = "0.4"
opus = "0.3"
ratatui = "0.29"
ringbuf = "0.4"
rubato = "0.15"
serde = { version = "1", features = ["derive"] }
toml = "0.8"
