[package]
name = "meshi"
version = "0.1.0"
edition = "2021"
publish = false

[dependencies]
dashi = "*"
bincode = "1"
clap = { version = "4", features = ["derive"] }
glam = "*"
regex = "1"
rspirv = "*"
rspirv-reflect = "*"
serde = { version = "1", features = ["derive"] }
serde_json = "1"
shaderc = "*"
thiserror = "*"
