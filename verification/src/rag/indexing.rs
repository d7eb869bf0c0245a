//! Turning documents into chunks.
use vstd::prelude::*;
use std::sync::Arc;
use crate::rag::chunker::ChunkStrategy;
use crate::rag::error::RagError;
use crate::rag::types::{Chunk, ChunkMetadata};
use crate::text::{decimal, push_str, usize_to_decimal};

verus! {

/// A document to be indexed.
#[derive(Debug, Clone)]
pub struct IndexDocument {
    pub id: String,
    pub content: String,
    pub title: Option<String>,
    pub metadata: ChunkMetadata,
}

/// Cuts documents into chunks with one strategy and tags them with a namespace.
pub struct DocumentIndexer<S: ChunkStrategy + ?Sized> {
    chunk_strategy: Arc<S>,
    namespace: String,
}

/// The id of chunk `i` of document `doc_id`: the document id, a hyphen and `i`.
pub open spec fn chunk_id(doc_id: Seq<char>, i: nat) -> Seq<char> {
    doc_id + "-"@ + decimal(i)
}

/// The id of chunk `i` of document `doc_id`.
fn make_chunk_id(doc_id: &String, i: usize) -> (r: String)
    ensures
        r@ == chunk_id(doc_id@, i as nat),
{
    let mut id = doc_id.clone();
    push_str(&mut id, "-");
    let n = usize_to_decimal(i);
    push_str(&mut id, n.as_str());
    proof {
        reveal_strlit("-");
    }
    id
}

impl<S: ChunkStrategy + ?Sized> DocumentIndexer<S> {
    pub fn new(chunk_strategy: Arc<S>, namespace: String) -> (r: Self)
        ensures
            r.strategy() == chunk_strategy,
            r.namespace() == namespace@,
    {
        DocumentIndexer { chunk_strategy, namespace }
    }

    pub closed spec fn strategy(&self) -> Arc<S> {
        self.chunk_strategy
    }

    pub closed spec fn namespace(&self) -> Seq<char> {
        self.namespace@
    }

    /// Chunk `i` of `doc` is the strategy's chunk `i` of its content, with id
    /// `"{doc.id}-{i}"`, index `i`, the document's metadata, title and this
    /// indexer's namespace. Never fails.
    pub fn index_document(&self, doc: IndexDocument) -> (r: Result<Vec<Chunk>, RagError>)
        ensures
            r is Ok,
            r->Ok_0@.len() == self.strategy().spec_chunk(doc.content@).len(),
            forall|i: int| 0 <= i < r->Ok_0@.len() ==> {
                let c = #[trigger] r->Ok_0@[i];
                &&& c.id@ == chunk_id(doc.id@, i as nat)
                &&& c.document_id@ == doc.id@
                &&& c.content@ == self.strategy().spec_chunk(doc.content@)[i]
                &&& c.chunk_index == i as u32
                &&& c.summary is None
                &&& c.embedding_bits is None
                &&& c.expires_at is None
                &&& c.metadata.source == doc.metadata.source
                &&& c.metadata.author == doc.metadata.author
                &&& c.metadata.created_at == doc.metadata.created_at
                &&& c.metadata.tags@ == doc.metadata.tags@
                &&& c.metadata.extra@ == doc.metadata.extra@
                &&& c.metadata.document_title == doc.title
                &&& c.metadata.namespace matches Some(ns) && ns@ == self.namespace()
            },
    {
        let texts = self.chunk_strategy.chunk(doc.content.as_str());
        let mut chunks: Vec<Chunk> = Vec::new();
        let mut i: usize = 0;
        while i < texts.len()
            invariant
                i <= texts@.len(),
                texts@.len() == self.strategy().spec_chunk(doc.content@).len(),
                forall|j: int| 0 <= j < texts@.len() ==> (#[trigger] texts@[j])@ == self.strategy().spec_chunk(doc.content@)[j],
                chunks@.len() == i,
                forall|j: int| 0 <= j < i ==> {
                    let c = #[trigger] chunks@[j];
                    &&& c.id@ == chunk_id(doc.id@, j as nat)
                    &&& c.document_id@ == doc.id@
                    &&& c.content@ == self.strategy().spec_chunk(doc.content@)[j]
                    &&& c.chunk_index == j as u32
                    &&& c.summary is None
                    &&& c.embedding_bits is None
                    &&& c.expires_at is None
                    &&& c.metadata.source == doc.metadata.source
                    &&& c.metadata.author == doc.metadata.author
                    &&& c.metadata.created_at == doc.metadata.created_at
                    &&& c.metadata.tags@ == doc.metadata.tags@
                    &&& c.metadata.extra@ == doc.metadata.extra@
                    &&& c.metadata.document_title == doc.title
                    &&& c.metadata.namespace matches Some(ns) && ns@ == self.namespace()
                },
            decreases texts.len() - i,
        {
            let id = make_chunk_id(&doc.id, i);
            let mut chunk = Chunk::new(id, doc.id.clone(), texts[i].clone(), i as u32);
            let mut meta = doc.metadata.copy();
            meta.document_title = doc.title.clone();
            meta.namespace = Some(self.namespace.clone());
            chunk.metadata = meta;
            chunks.push(chunk);
            i = i + 1;
        }
        Ok(chunks)
    }
}

} // verus!
