[package]
name = "polars_bio"
version = "0.1.0"
edition = "2021"
publish = false

[dependencies]
coitrees = "0.4"
fnv = "1.0"
rand = "0.8"
log = "0.4"
tracing = "0.1"
async-trait = "0.1"
futures = "0.3"
futures-util = "0.3"
tokio = { version = "1", features = ["rt-multi-thread"] }
arrow-array = { version = "53", features = ["ffi"] }
arrow-schema = "53"
