[package]
name = "niri_quickshell"
version = "0.1.0"
edition = "2021"
publish = false

[dependencies]
dirs = "*"
flatbuffers = "*"
futures-lite = "*"
libc = "*"
notify = "*"
serde = { version = "*", features = ["derive"] }
serde_json = "*"
tokio = { version = "*", features = ["full"] }
toml = "*"
zbus = "*"
