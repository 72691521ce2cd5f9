[package]
name = "wand"
version = "0.1.0"
edition = "2021"
publish = false

[dependencies]
tera = "1"
serde = { version = "1", features = ["derive"] }
serde_json = "1"
clap = "2"
dialoguer = "0.11"
console = "0.15"
prettytable-rs = "0.10"
log = "0.4"
env_logger = "0.11"
