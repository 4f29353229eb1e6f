[package]
name = "stickies"
version = "0.1.0"
edition = "2021"
publish = false

[dependencies]
gtk4 = "*"
gtk4-layer-shell = "*"
rusqlite = "*"
serde = { version = "1", features = ["derive"] }
toml = "*"
