[package]
name = "chess_sim"
version = "0.1.0"
edition = "2021"
publish = false

[dependencies]
chess-notation-parser = "*"
chess-turn-engine = "*"
clap = { version = "3", features = ["derive"] }
ctrlc = "3"
rand = "0.8"
