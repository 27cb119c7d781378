[package]
name = "wasm_coredump"
version = "0.1.0"
edition = "2021"
publish = false

[dependencies]
leb128 = "=0.2.7"
byteorder = "=1.5.0"
wasm-encoder = "=0.23.0"
rustc-demangle = "=0.1.28"
clap = { version = "=4.6.7", features = ["derive"] }
uuid = { version = "=1.29.0", features = ["v4"] }
log = "=0.4.34"
env_logger = "=0.10.2"
object = "=0.29.0"
wasmgdb_ddbug_parser = "=0.3.3"
colored = "2"
