[package]
name = "ebyte_e32_ui"
version = "0.1.0"
edition = "2021"
publish = false

[dependencies]
clap = { version = "*", features = ["derive"] }
ebyte-e32 = "*"
embedded-hal = "*"
linux-embedded-hal = "*"
nb = "*"
rppal = { version = "*", features = ["hal"] }
rustyline = "*"

[dev-dependencies]
toml = "*"
