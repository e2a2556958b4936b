[package]
name = "cargo_msrv_prep"
version = "0.1.0"
edition = "2021"
publish = false

[dependencies]
toml_edit = "=0.25.16"
cargo_metadata = "=0.23.1"
clap = { version = "=4.6.7", features = ["derive"] }
clap-cargo = { version = "=0.19.0", features = ["clap", "cargo_metadata"] }
clap-verbosity-flag = "=3.0.4"
env_logger = "=0.11.11"
log = "=0.4.34"
