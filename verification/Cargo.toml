[package]
name = "ncommit"
version = "0.1.0"
edition = "2021"
publish = false

[dependencies]
regex = "1"
version-compare = "*"
handlebars = "*"
serde = { version = "1", features = ["derive"] }
serde_json = "1"
toml = "*"
clap = { version = "3", features = ["derive"] }
inquire = "*"
colour = "*"
log = "*"
simple_logger = "*"
