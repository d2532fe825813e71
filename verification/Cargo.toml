[package]
name = "dux"
version = "0.1.0"
edition = "2021"
publish = false

[dependencies]
crc32fast = "1"
postcard = { version = "1", default-features = false, features = ["alloc"] }
serde = { version = "1", features = ["derive"] }
thiserror = "*"
jwalk = "0.8"
crossbeam-channel = "0.5"
clap = { version = "4", features = ["derive"] }
crossterm = "*"
ratatui = "*"
dirs = "*"
