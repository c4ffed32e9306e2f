[package]
name = "copilot_money_cli"
version = "0.1.0"
edition = "2021"
publish = false

[dependencies]
anyhow = "1"
clap = { version = "4", features = ["derive", "env"] }
clap_complete = "4"
comfy-table = "7"
dialoguer = { version = "0.11", features = ["fuzzy-select"] }
reqwest = { version = "0.12", default-features = false, features = ["blocking", "json"] }
rpassword = "7"
serde = { version = "1", features = ["derive"] }
serde_json = "1"
