[package]
name = "rag_embeddings"
version = "0.1.0"
edition = "2021"
publish = false

[dependencies]
clap = "4"
qdrant_rest_client = "*"
serde_json = "1"
time = "0.3"
tokio = { version = "1", features = ["rt", "macros"] }
wasmedge-wasi-nn = "*"
