[package]
name = "akame"
version = "0.1.0"
edition = "2021"
publish = false

[dependencies]
anyhow = "*"
clap = { version = "*", features = ["derive"] }
rustyline = "*"
termcolor = "*"
tracing = "*"
tracing-subscriber = "*"
