[package]
name = "ttipc"
version = "0.1.0"
edition = "2021"
publish = false

[dependencies]
serde = { version = "=1.0.229", features = ["derive"] }
serde_json = "=1.0.154"
thiserror = "=2.0.21"
jsonschema = { version = "=0.60.2", default-features = false }
syn = { version = "=2.0.119", features = ["full", "visit", "visit-mut", "extra-traits", "parsing", "printing"] }
quote = "=1.0.47"
proc-macro2 = { version = "=1.0.107", features = ["span-locations"] }
prettyplease = "=0.2.37"
proc-macro-crate = "=3.5.0"
