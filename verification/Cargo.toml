[package]
name = "rv64_emu"
version = "0.1.0"
edition = "2021"
publish = false

[dependencies]
anyhow = "*"
clap = { version = "*", features = ["derive"] }
gdbstub = "*"
gdbstub_arch = "*"
object = "*"
serde = { version = "*", features = ["derive"] }
toml = "*"
tracing = "*"
tracing-subscriber = { version = "*", features = ["env-filter"] }
