[package]
name = "pavex_static_files"
version = "0.1.0"
edition = "2021"
publish = false

[dependencies]
mime_guess = "2"
serde = { version = "1", features = ["derive"] }

[dev-dependencies]
tempfile = "3"
