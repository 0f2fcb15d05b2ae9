[package]
name = "vectordb"
version = "0.1.0"
edition = "2021"
publish = false

[dependencies]
sha2 = "=0.10.9"
hex = "=0.4.3"
crossterm = "=0.28.1"
ratatui = "=0.29.0"
color-eyre = "=0.6.5"
prost = "=0.13.5"
rand = "=0.9.5"
serde = { version = "=1.0.229", features = ["derive"] }
serde_json = "=1.0.154"
bincode = "=1.3.3"
log = "=0.4.35"
flexi_logger = "=0.29.8"
once_cell = "=1.21.4"
rocksdb = { version = "=0.22.0", default-features = false }
reqwest = { version = "0.12", default-features = false, features = ["blocking", "json"] }
