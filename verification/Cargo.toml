[package]
name = "helix_db"
version = "0.1.0"
edition = "2021"
publish = false

[dependencies]
serde = { version = "1", features = ["derive"] }
sonic-rs = "*"
uuid = { version = "1", features = ["v4"] }
chrono = "0.4"
dirs = "*"
dotenvy = "*"
nix = { version = "*", features = ["signal", "process"] }
toml = "*"
