[package]
name = "updater_core"
version = "0.1.0"
edition = "2021"
publish = false

[dependencies]
serde_json = "1"
chrono = "0.4"
serde = { version = "1", features = ["derive"] }
tokio = { version = "1", features = ["process", "fs", "rt-multi-thread", "macros", "io-util"] }
reqwest = { version = "0.12", default-features = false, features = ["json"] }
directories-next = "2"
