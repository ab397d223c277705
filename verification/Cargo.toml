[package]
name = "port_mapping"
version = "0.1.0"
edition = "2021"
publish = false

[dependencies]
portpicker = "*"
serde = { version = "*", features = ["derive"] }
serde_yaml = "*"
