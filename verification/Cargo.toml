[package]
name = "syntax_installer"
version = "0.1.0"
edition = "2021"
publish = false

[dependencies]
dirs = "5"
futures-util = "0.3"
rand = "0.8"
reqwest = { version = "0.11", features = ["stream"] }
serde = { version = "1", features = ["derive"] }
serde_ini = "0.2"
serde_json = "1"
tokio = { version = "1", features = ["fs", "macros", "rt-multi-thread"] }
zip-extract = "0.1"
