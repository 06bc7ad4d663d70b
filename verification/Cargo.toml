[package]
name = "uuid_guard"
version = "0.1.0"
edition = "2021"
publish = false

[dependencies]
uuid7 = "*"
clap = { version = "*", features = ["derive"] }

[dev-dependencies]
regex = "*"
