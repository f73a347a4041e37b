[package]
name = "mcts"
version = "0.1.0"
edition = "2021"
publish = false

[dependencies]
rand_xoshiro = "=0.6.0"
ratatui = "=0.29.0"
crossterm = "=0.28.1"
parking_lot = "=0.12.5"
rayon = "=1.12.0"
clap = { version = "=4.6.7", features = ["derive"] }
