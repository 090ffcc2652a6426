[package]
name = "poly_cli"
version = "0.1.0"
edition = "2021"
publish = false

[dependencies]
atty = "=0.2.14"
chrono = "=0.4.45"
clap = { version = "=4.6.7", features = ["derive"] }
reqwest = { version = "=0.13.5", default-features = false, features = ["blocking", "json", "query"] }
serde = { version = "=1.0.229", features = ["derive"] }
serde_json = "=1.0.151"
