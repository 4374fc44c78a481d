[package]
name = "zync"
version = "0.1.0"
edition = "2021"
publish = false

[dependencies]
serde_json = "1"
serde = { version = "1", features = ["derive"] }
unicode-width = "0.2"
tokio = { version = "1", features = ["rt-multi-thread", "net", "fs", "io-util", "sync", "time"] }
dirs = "5"
log = "0.4"
chrono = "0.4"
whoami = "1"
once_cell = "1"
ratatui = "0.29"
crossterm = "0.28"
rand = "0.8"
nanoid = "0.4"
