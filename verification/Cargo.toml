[package]
name = "composemux"
version = "0.1.0"
edition = "2021"
publish = false

[dependencies]
anyhow = "1"
bollard = "0.19"
crossterm = "0.29"
futures = "0.3"
ratatui = "0.30"
tokio = { version = "1", features = ["macros", "rt", "sync", "time"] }
tokio-util = "0.7"
vt100 = "0.16"
