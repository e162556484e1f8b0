[package]
name = "savegame_editor"
version = "0.1.0"
edition = "2021"
publish = false

[dependencies]
flate2 = "1"
regex = "1"
serde = { version = "1", features = ["derive"] }
serde_json = "1"
term = "*"
term_size = "*"
dotenv = "0.15"
