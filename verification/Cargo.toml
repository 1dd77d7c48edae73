[package]
name = "trace_weaver"
version = "0.6.1"
edition = "2021"
publish = false

[dependencies]
anyhow = "1"
clap = { version = "4", features = ["derive"] }
indexmap = { version = "2", features = ["serde"] }
rustpython-parser = "*"
serde = { version = "1", features = ["derive"] }
serde_json = "1"
sqlparser = "*"
ureq = { version = "3", features = ["json"] }
walkdir = "2"
