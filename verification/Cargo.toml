[package]
name = "poh_log"
version = "0.1.0"
edition = "2021"
publish = false

[dependencies]
bincode = "1"
generic-array = { version = "0.14", features = ["serde"] }
rayon = "1"
ring = "0.17"
serde = { version = "1", features = ["derive"] }
sha2 = "0.10"
untrusted = "0.9"
