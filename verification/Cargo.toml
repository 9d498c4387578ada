[package]
name = "herdr_regions"
version = "0.1.0"
edition = "2021"
publish = false

[dependencies]
ratatui = { version = "*", default-features = false }
schemars = { version = "*", features = ["derive"] }
serde = { version = "1", features = ["derive"] }
tracing = "0.1"
