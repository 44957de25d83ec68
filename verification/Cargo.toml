[package]
name = "infinite_errors"
version = "0.1.0"
edition = "2021"
publish = false

[dependencies]
chrono = { version = "=0.4.45", default-features = false, features = ["std"] }
log = { version = "=0.4.34", features = ["kv"] }
minitrace = { version = "=0.6.7", features = ["enable"] }
proc-macro2 = { version = "=1.0.107", default-features = false }
quote = { version = "=1.0.47", default-features = false }
serde_json = "=1.0.154"
structured-logger = "=1.0.5"
syn = { version = "=2.0.119", default-features = false, features = ["clone-impls", "extra-traits", "full", "parsing", "printing"] }
uuid = "=1.29.0"
