[package]
name = "edges"
version = "0.1.0"
edition = "2021"
publish = false

[dependencies]
anyhow = "1"
clap = { version = "4", features = ["derive"] }
core-foundation = "0.9"
core-graphics = "0.23"
ctrlc = "3"
foreign-types = "0.5"
libc = "0.2"
serde = { version = "1", features = ["derive"] }
toml = "0.8"
tracing = "0.1"
tracing-subscriber = { version = "0.3", features = ["env-filter"] }
