[package]
name = "quickicon"
version = "0.1.0"
edition = "2021"
publish = false

[dependencies]
arboard = "=3.7.0"
clap = { version = "=4.6.7", features = ["derive"] }
dialoguer = "=0.12.0"
regex = "=1.13.1"
reqwest = "=0.13.5"
serde = { version = "=1.0.229", features = ["derive"] }
serde_json = "=1.0.154"
tokio = { version = "=1.54.1", features = ["macros", "rt-multi-thread"] }
