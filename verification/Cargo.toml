[package]
name = "amplitude"
version = "0.1.0"
edition = "2021"
publish = false

[dependencies]
uuid = { version = "1", features = ["v4", "serde"] }
serde = { version = "1", features = ["derive"] }
toml = "*"
dirs = "*"
anyhow = "1"
log = "0.4"
pipewire = "*"
