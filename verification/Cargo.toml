[package]
name = "hyfetch"
version = "0.1.0"
edition = "2021"
publish = false

[dependencies]
aho-corasick = "1"
anstream = "0.6"
anyhow = "1"
directories = "*"
indexmap = { version = "2", features = ["serde"] }
itertools = "*"
normpath = "1"
same-file = "1"
serde = { version = "1", features = ["derive"] }
strum = { version = "0.26", features = ["derive"] }
tempfile = "3"
toml_edit = "0.22"
tracing = "0.1"
unicode-segmentation = "1"
which = "*"
