[package]
name = "rweb_helper"
version = "0.1.0"
edition = "2021"
publish = false

[dependencies]
rweb = { version = "*", features = ["openapi"] }
serde = { version = "*", features = ["derive"] }
serde_json = "*"
uuid = "*"
time = "*"
rust_decimal = "*"
once_cell = "*"
derive_more = { version = "*", features = ["full"] }
syn = { version = "*", features = ["full"] }
quote = "*"
proc-macro2 = "*"
