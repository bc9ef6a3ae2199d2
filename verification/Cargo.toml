[package]
name = "rune_editor"
version = "0.1.0"
edition = "2021"
publish = false

[dependencies]
uuid = { version = "=1.29.0", features = ["v4"] }
markdown = "=1.0.0"
regex = "=1.13.1"
serde = { version = "=1.0.229", features = ["derive"] }
serde_json = "=1.0.154"
html-escape = "0.2"
clap = { version = "4", features = ["derive"] }
dirs = "5"
tokio = { version = "1", features = ["rt-multi-thread", "macros", "signal", "time"] }
