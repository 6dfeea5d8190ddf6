[package]
name = "le_grillon"
version = "0.1.0"
edition = "2021"
publish = false

[dependencies]
chrono = "0.4"
fltk = "1"
fltk-theme = "*"
reqwest = { version = "0.12", default-features = false }
sqlx = { version = "0.8", default-features = false, features = ["sqlite", "runtime-tokio", "json", "chrono"] }
tokio = { version = "1", features = ["rt-multi-thread", "macros"] }
