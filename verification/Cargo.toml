[package]
name = "opengate"
version = "0.1.0"
edition = "2021"
publish = false

[dependencies]
sha2 = "=0.11.0"
shellexpand = "=3.1.2"
hound = "=3.5.1"
serde = { version = "=1.0.229", features = ["derive"] }
serde_yaml = "=0.9.34"
yaml-merge-keys = { version = "=0.9.0", features = ["serde_yaml"] }
clap = { version = "=4.6.7", features = ["derive"] }
log = "=0.4.34"
env_logger = "=0.11.11"
directories = "=6.0.0"
rustfft = "=6.4.1"
rand = "=0.10.3"

[dev-dependencies]
hex = "=0.4.3"
