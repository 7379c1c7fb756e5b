[package]
name = "synacor_vm"
version = "0.1.0"
edition = "2021"
publish = false

[dependencies]
ux = "0.1"
anyhow = "1"
clap = { version = "4", features = ["derive"] }
serde = { version = "1", features = ["derive"] }
serde_json = "1"
tokio = { version = "1", features = ["sync", "io-std", "io-util", "macros", "rt"] }
either = "1"
