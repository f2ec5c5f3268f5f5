[package]
name = "note_store"
version = "0.1.0"
edition = "2021"
publish = false

[dependencies]
dioxus = { version = "0.6", features = ["web"] }
js-sys = "0.3"
serde = { version = "1", features = ["derive"] }
