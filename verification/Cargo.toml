[package]
name = "mji_agenda"
version = "0.1.0"
edition = "2021"
publish = false

[dependencies]
petgraph = "0.6"
cached = { version = "*", default-features = false }
serde = { version = "1", features = ["derive"] }
toml = "*"
thiserror = "*"
strum_macros = "*"
