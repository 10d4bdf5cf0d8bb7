[package]
name = "normalize_lifetimes"
version = "0.1.0"
edition = "2021"
publish = false

[dependencies]
proc-macro2 = { version = "1", default-features = false }
syn = { version = "2", default-features = false, features = ["full", "visit", "visit-mut", "extra-traits", "clone-impls", "parsing", "printing"] }
