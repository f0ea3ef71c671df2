[package]
name = "ssh_key_manager"
version = "0.1.0"
edition = "2021"
publish = false

[dependencies]
age = "0.11"
chrono = "0.4"
clap = { version = "4", features = ["derive"] }
directories = "5"
hostname = "0.4"
rand = "0.8"
serde = { version = "1", features = ["derive"] }
serde_json = "1"
ssh-key = { version = "0.6", features = ["ed25519", "rand_core"] }
walkdir = "2"
