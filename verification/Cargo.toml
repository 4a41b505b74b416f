[package]
name = "todomvc"
version = "0.1.0"
edition = "2021"
publish = false

[dependencies]
automerge = "*"
uuid = { version = "*", features = ["v4"] }
serde = { version = "*", features = ["derive"] }
serde_derive = "*"
serde_json = "*"
reqwest = { version = "*", default-features = false, features = ["blocking"] }
vgtk = "*"
strum = "*"
strum_macros = "*"
maplit = "*"
