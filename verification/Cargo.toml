[package]
name = "grgry"
version = "0.1.0"
edition = "2021"
publish = false

[dependencies]
regex = "=1.13.1"
clap = { version = "*", features = ["derive"] }
colored = "*"
dirs = "*"
inquire = "*"
reqwest = { version = "=0.13.5", default-features = false, features = ["json", "query"] }
serde = { version = "*", features = ["derive"] }
serde_json = "*"
tokio = { version = "*", features = ["macros", "rt-multi-thread"] }
toml_edit = "*"
walkdir = "*"
