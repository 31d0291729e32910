[package]
name = "cajachoca"
version = "0.1.0"
edition = "2021"
publish = false

[dependencies]
chrono = "0.4"
rusqlite = { version = "*", features = ["bundled"] }
serde = { version = "1", features = ["derive"] }
serde_json = "1"
dirs = "*"
printpdf = "0.6"
rust_xlsxwriter = "*"
