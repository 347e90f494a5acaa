[package]
name = "timeular_cli"
version = "0.1.0"
edition = "2021"
publish = false

[dependencies]
argh = "*"
chrono = { version = "*", features = ["serde"] }
serde = { version = "*", features = ["derive"] }
reqwest = { version = "*", default-features = false, features = ["blocking", "json"] }
