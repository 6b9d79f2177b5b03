[package]
name = "zxc"
version = "0.1.0"
edition = "2021"
publish = false

[dependencies]
clap = { version = "=4.6.7", features = ["cargo", "string"] }
minijinja = "=2.24.0"
run_script = "=0.11.2"
serde = { version = "=1.0.229", features = ["derive"] }
serde_yaml = "=0.9.34"
