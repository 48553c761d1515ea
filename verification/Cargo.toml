[package]
name = "zone_shadow"
version = "0.1.0"
edition = "2021"
publish = false

[dependencies]
serde_json = "1"
serde = { version = "1", features = ["derive"] }
log = "0.4"
env_logger = "*"
config = { version = "*", default-features = false, features = ["yaml"] }
rumqtt = "*"
rustpi_io = "*"
