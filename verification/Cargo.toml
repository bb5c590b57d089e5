[package]
name = "cadence_json"
version = "0.1.0"
edition = "2021"
publish = false

[dependencies]
serde = { version = "1", features = ["derive"] }
serde_json = { version = "1", features = ["preserve_order"] }
syn = "2"
quote = "1"
proc-macro2 = "1"
