[package]
name = "fxp_videoclipper"
version = "0.5.0"
edition = "2021"
publish = false

[dependencies]
anyhow = "1"
clap = { version = "4", features = ["derive"] }
clap-verbosity-flag = "3"
confy = "0.6"
console = "0.15"
ctrlc = "3"
dialoguer = "0.11"
directories = "5"
env_logger = "0.11"
image = "0.24"
indicatif = "0.17"
log = "0.4"
rand = "0.8"
regex = "1"
rolling-file = "0.2"
serde = { version = "1", features = ["derive"] }
tempfile = "3"
thiserror = "1"
