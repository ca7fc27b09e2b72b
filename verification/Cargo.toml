[package]
name = "auto_enumerate"
version = "0.1.0"
edition = "2021"
publish = false

[dependencies]
proc-macro2 = "=1.0.107"
quote = "=1.0.47"
smallvec = "=1.16.4"
syn = { version = "=1.0.109", features = ["full", "visit-mut"] }
unicode-ident = "=1.0.27"
