[package]
name = "japm"
version = "0.1.0"
edition = "2021"
publish = false

[dependencies]
linked-hash-map = "0.5"
semver = "1"
shell-words = "1"
serde = { version = "1", features = ["derive"] }
serde_json = "1"
clap = { version = "4", features = ["derive"] }
log = "0.4"
thiserror = "1"
rayon = "1"
reqwest = { version = "0.11", default-features = false, features = ["blocking"] }
diesel = { version = "2", default-features = false, features = ["sqlite"] }
