[package]
name = "innervoice_core"
version = "0.1.0"
edition = "2021"
publish = false

[dependencies]
hound = "*"
num_cpus = "*"
rusqlite = { version = "*", features = ["bundled"] }
serde_json = "*"
whisper-rs = "*"
