//! Errors of the RAG engine.
use vstd::prelude::*;
use crate::text::{decimal, push_str, usize_to_decimal};

verus! {

/// RAG engine error.
#[derive(Debug)]
pub enum RagError {
    Retrieve(String),
    Generation(String),
    ContextOverflow { used: usize, max: usize },
    NoResults(String),
    Embedding(String),
    Store(String),
    Rerank(String),
    Chunking(String),
    QueryPreprocessing(String),
    Config(String),
    Provider(String),
    TemplateNotFound(String),
    NamespaceNotFound(String),
}

/// The message of an error.
pub open spec fn spec_rag_message(e: RagError) -> Seq<char> {
    match e {
        RagError::Retrieve(m) => "Retrieval error: "@ + m@,
        RagError::Generation(m) => "Generation error: "@ + m@,
        RagError::ContextOverflow { used, max } => "Context overflow: "@ + decimal(used as nat) + "/"@ + decimal(max as nat) + " tokens"@,
        RagError::NoResults(m) => "No results found for query: "@ + m@,
        RagError::Embedding(m) => "Embedding error: "@ + m@,
        RagError::Store(m) => "Store error: "@ + m@,
        RagError::Rerank(m) => "Rerank error: "@ + m@,
        RagError::Chunking(m) => "Chunking error: "@ + m@,
        RagError::QueryPreprocessing(m) => "Query preprocessing error: "@ + m@,
        RagError::Config(m) => "Configuration error: "@ + m@,
        RagError::Provider(m) => "Provider error: "@ + m@,
        RagError::TemplateNotFound(m) => "Template not found: "@ + m@,
        RagError::NamespaceNotFound(m) => "Namespace not found: "@ + m@,
    }
}

fn with_prefix(prefix: &str, m: &String) -> (s: String)
    ensures
        s@ == prefix@ + m@,
{
    let mut s = String::from_str(prefix);
    push_str(&mut s, m.as_str());
    s
}

impl RagError {
    /// Whether the failure is worth a retry: retrieval, generation and store errors.
    pub fn is_retryable(&self) -> (r: bool)
        ensures
            r == (*self is Retrieve || *self is Generation || *self is Store),
    {
        match self {
            RagError::Retrieve(_) => true,
            RagError::Generation(_) => true,
            RagError::Store(_) => true,
            _ => false,
        }
    }

    /// The error's message, as its `Display` writes it.
    pub fn to_display_string(&self) -> (s: String)
        ensures
            s@ == spec_rag_message(*self),
    {
        match self {
            RagError::Retrieve(m) => with_prefix("Retrieval error: ", m),
            RagError::Generation(m) => with_prefix("Generation error: ", m),
            RagError::ContextOverflow { used, max } => {
                let mut s = String::from_str("Context overflow: ");
                push_str(&mut s, usize_to_decimal(*used).as_str());
                push_str(&mut s, "/");
                push_str(&mut s, usize_to_decimal(*max).as_str());
                push_str(&mut s, " tokens");
                s
            },
            RagError::NoResults(m) => with_prefix("No results found for query: ", m),
            RagError::Embedding(m) => with_prefix("Embedding error: ", m),
            RagError::Store(m) => with_prefix("Store error: ", m),
            RagError::Rerank(m) => with_prefix("Rerank error: ", m),
            RagError::Chunking(m) => with_prefix("Chunking error: ", m),
            RagError::QueryPreprocessing(m) => with_prefix("Query preprocessing error: ", m),
            RagError::Config(m) => with_prefix("Configuration error: ", m),
            RagError::Provider(m) => with_prefix("Provider error: ", m),
            RagError::TemplateNotFound(m) => with_prefix("Template not found: ", m),
            RagError::NamespaceNotFound(m) => with_prefix("Namespace not found: ", m),
        }
    }
}

} // verus!
