[package]
name = "lens"
version = "0.1.0"
edition = "2021"
publish = false

[dependencies]
shell-words = "1"
clap = { version = "4", features = ["derive"] }
sys-info = "0.9"
tokio = { version = "1", features = ["macros", "process", "rt", "rt-multi-thread", "time"] }
