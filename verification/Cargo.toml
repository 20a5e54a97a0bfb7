[package]
name = "investments"
version = "0.1.0"
edition = "2021"
publish = false

[dependencies]
chrono = "0.4"
chrono-tz = "0.5"
clap = "2"
csv = "1"
diesel = { version = "1.4", features = ["sqlite"] }
log = "0.4"
regex = "1"
reqwest = { version = "0.11", features = ["blocking", "json"] }
serde = { version = "1", features = ["derive"] }
serde_json = "1"
shellexpand = "2"
