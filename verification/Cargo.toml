[package]
name = "lyr"
version = "0.1.0"
edition = "2021"
publish = false

[dependencies]
serde_json = "1"
serde = { version = "1", features = ["derive"] }
reqwest = { version = "0.12", features = ["blocking", "gzip"] }
clap = { version = "4", features = ["derive"] }
rand = "0.8"
image = { version = "0.25", default-features = false, features = ["jpeg", "png"] }
viuer = "0.9"
