[package]
name = "cpu_sim"
version = "0.1.0"
edition = "2021"
publish = false

[dependencies]
elf = "0.7"
vcd = "0.7"
image = { version = "0.25", default-features = false, features = ["png"] }
clap = { version = "4", features = ["derive"] }
log = "0.4"
env_logger = "0.11"
