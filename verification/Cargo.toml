[package]
name = "lance_rle_benchmark"
version = "0.1.0"
edition = "2021"
publish = false

[dependencies]
arrow-array = "*"
arrow-schema = "*"
bytes = "*"
futures = "*"
lance-core = { version = "*", default-features = false }
lance-encoding = { version = "*", default-features = false }
lance-file = { version = "*", default-features = false }
lance-io = { version = "*", default-features = false }
object_store = "*"
parquet = { version = "*", features = ["arrow", "snap"] }
rand = "0.8"
tokio = { version = "*", features = ["rt-multi-thread"] }
