[package]
name = "term_games"
version = "0.1.0"
edition = "2021"
publish = false

[dependencies]
rand = "0.8"
termion = "*"
console = "0.15"
clap = { version = "4", features = ["derive"] }
nalgebra = "0.33"
