[package]
name = "crypto_instrumentation"
version = "0.1.0"
edition = "2021"
publish = false

[dependencies]
openmls_memory_storage = "*"
openmls_traits = "*"
tls_codec = "*"
