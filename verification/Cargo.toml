[package]
name = "mima"
version = "0.8.1"
edition = "2021"
publish = false

[dependencies]
anyhow = "*"
clap = { version = "*", features = ["derive"] }
colored = "*"
serde = { version = "*", features = ["derive"] }
serde_json = "*"
tabwriter = "*"
time = { version = "*", features = ["formatting", "parsing"] }
toml = "*"
