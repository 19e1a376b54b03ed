[package]
name = "sklauncher"
version = "0.1.0"
edition = "2021"
publish = false

[dependencies]
indexmap = "2"
regex = "1"
shlex = "1"
toml = { version = "*", features = ["preserve_order"] }
xdg = "3"
