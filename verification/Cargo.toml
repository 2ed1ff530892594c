[package]
name = "ltxbuild"
version = "0.1.0"
edition = "2021"
publish = false

[dependencies]
failure = "*"
indicatif = "*"
serde = { version = "*", features = ["derive"] }
structopt = "*"
