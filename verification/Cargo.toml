[package]
name = "ggca"
version = "0.1.0"
edition = "2021"
publish = false

[dependencies]
extsort = "=0.5.0"
kendalls = "=1.0.0"
GSL = "=7.0.0"
serde = { version = "=1.0.229", features = ["derive"] }
serde_derive = "=1.0.229"

[dev-dependencies]
bincode = "=1.3.3"
