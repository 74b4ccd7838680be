//! Ingestion core of a retrieval pipeline: a text document is cut into
//! sections, every section gets an identifier and an embedding vector, and
//! the pair is handed on as a point for a vector store.
//!
//! The crate performs no I/O. A caller reads the lines, runs the inference
//! engine and talks to the store; the decisions in between are made here.
pub mod chunker;
pub mod config;
pub mod driver;
pub mod embedding;
pub mod point;
pub mod text;
