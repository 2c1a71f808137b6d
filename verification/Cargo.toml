[package]
name = "ascents"
version = "0.1.0"
edition = "2021"
publish = false

[dependencies]
rusqlite = "*"
time = { version = "0.3", features = ["formatting", "parsing", "macros"] }

[dev-dependencies]
regex = "1"
tempfile = "3"
