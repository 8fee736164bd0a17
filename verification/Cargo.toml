[package]
name = "potato_shell"
version = "0.1.0"
edition = "2021"
publish = false

[dependencies]
anyhow = "1"
chrono = { version = "0.4", features = ["serde"] }
colored = "2"
rustyline = "*"
serde = { version = "1", features = ["derive"] }
