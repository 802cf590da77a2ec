[package]
name = "zarr_reader"
version = "0.1.0"
edition = "2021"
publish = false

[dependencies]
byteorder = "1"
flate2 = "1"
lz4_flex = "*"
zstd = "*"
serde_json = "1"
serde = { version = "1", features = ["derive"] }
half = "2"
num-complex = "0.4"
blosc-src = "*"
tokio = { version = "1", features = ["rt", "rt-multi-thread", "fs"] }
async-trait = "0.1"
futures = "0.3"
object_store = "*"
thiserror = "*"
bytes = "1"
