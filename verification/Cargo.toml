[package]
name = "somo"
version = "1.0.0"
edition = "2021"
publish = false

[dependencies]
clap = { version = "*", features = ["derive"] }
clap_complete = "*"
etcetera = "*"
handlebars = "*"
inquire = "*"
libc = "*"
nix = { version = "*", features = ["signal"] }
procfs = "*"
serde = { version = "*", features = ["derive"] }
serde_json = "*"
termimad = "*"
