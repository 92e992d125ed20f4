[package]
name = "pypackage"
version = "0.1.0"
edition = "2021"
publish = false

[dependencies]
regex = "1"
serde = { version = "1", features = ["derive"] }
structopt = "0.3"
termion = "1.5"
toml = "0.5"
