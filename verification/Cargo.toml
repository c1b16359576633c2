[package]
name = "git-copyright"
version = "0.1.0"
edition = "2021"
publish = false

[dependencies]
argh = "0.1"
chrono = { version = "0.4", default-features = false, features = ["std", "now"] }
crossbeam-channel = "0.5"
env_logger = "*"
glob = "0.3"
log = "0.4"
num_cpus = "1"
once_cell = "1"
regex = "1"
serde = { version = "1", features = ["derive"] }
serde_yaml = "0.9"
thiserror = "*"
toml = "*"
