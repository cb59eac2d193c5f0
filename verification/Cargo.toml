[package]
name = "delta_deletion_vectors"
version = "0.1.0"
edition = "2021"
publish = false

[dependencies]
arrow-array = "54"
arrow-schema = "54"
async-trait = "0.1"
bytes = "1"
crc32fast = "1"
datafusion = { version = "46", default-features = false, features = ["parquet"] }
futures = "0.3"
object_store = { version = "0.11", default-features = false }
parquet = { version = "54", default-features = false, features = ["arrow", "async"] }
roaring = "0.10"
serde = { version = "1", features = ["derive"] }
serde_json = "1"
tokio = { version = "1", features = ["rt"] }
url = "2"
uuid = { version = "1", features = ["v4"] }
z85 = "3"
