[package]
name = "macro_workshop"
version = "0.1.0"
edition = "2021"
publish = false

[dependencies]
syn = { version = "1", features = ["full", "visit", "visit-mut", "extra-traits"] }
quote = "1"
proc-macro2 = "1"
darling = "0.14"
