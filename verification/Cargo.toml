[package]
name = "jgd_rs"
version = "0.1.0"
edition = "2021"
publish = false

[dependencies]
rand = "*"
uuid = "*"
ulid = "*"
chrono = "*"
time = { version = "*", features = ["formatting", "parsing"] }
serde = { version = "*", features = ["derive"] }
serde_json = { version = "*", features = ["preserve_order"] }
indexmap = "*"
clap = { version = "*", features = ["derive"] }
