[package]
name = "process_orchestrator"
version = "0.1.0"
edition = "2021"
publish = false

[dependencies]
nanoid = "*"
chrono = "*"
ctrlc = "*"
log = "*"
simplelog = "*"
structopt = "*"
serde = { version = "*", features = ["derive"] }
serde_yaml = "*"
