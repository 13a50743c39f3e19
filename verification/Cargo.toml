[package]
name = "swarm_sim"
version = "0.1.0"
edition = "2021"
publish = false

[dependencies]
rand = "0.9"
rand_chacha = "0.9"
noise = "0.9"
serde = { version = "1", features = ["derive"] }
serde_json = "1"
thiserror = "*"
crossterm = "*"
ratatui = "*"
tokio = { version = "1", features = ["macros", "rt-multi-thread", "time"] }
env_logger = "*"
