//! Verified core of an LLM provider layer and a multi-channel RAG engine.
pub mod clock;
pub mod text;
pub mod provider;
pub mod rag;
