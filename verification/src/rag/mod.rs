//! The retrieval-augmented generation layer: chunking, indexing, context assembly.
pub mod error;
pub mod types;
pub mod chunker;
pub mod indexing;
pub mod pipeline;
pub mod retrieval;
pub mod context;
pub mod request;
pub mod engine;
pub mod config;
