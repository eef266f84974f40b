[package]
name = "blob_uploader"
version = "0.1.0"
edition = "2021"
publish = false

[dependencies]
azure_storage = "*"
azure_storage_blobs = "*"
druid = "*"
futures = "*"
tokio = { version = "1", features = ["rt-multi-thread"] }
winapi = { version = "0.3", features = ["wincon"] }
