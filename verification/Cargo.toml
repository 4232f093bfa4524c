[package]
name = "rust_gui"
version = "0.1.0"
edition = "2021"
publish = false

[dependencies]
tokio = { version = "1", default-features = false, features = ["sync"] }
proc-macro2 = "1"
quote = "1"
syn = { version = "2", features = ["derive"] }
