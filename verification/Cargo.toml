[package]
name = "movie_intro"
version = "0.1.0"
edition = "2021"
publish = false

[dependencies]
solana-program = "=2.1.21"

[dev-dependencies]
borsh = "=1.8.1"
