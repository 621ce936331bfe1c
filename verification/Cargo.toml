[package]
name = "jqawk"
version = "0.1.0"
edition = "2021"
publish = false

[dependencies]
atty = "0.2"
clap = "2"
regex = "1"
serde_json = { version = "1", features = ["preserve_order"] }
