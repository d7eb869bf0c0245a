//! Retrieval requests, hits and results.
use vstd::prelude::*;
use crate::rag::pipeline::{ChannelConfig, ChannelType};
use crate::rag::types::{copy_strings, ChunkMetadata};

verus! {

/// Bit pattern of the `f32` value 0.5.
pub const HALF_BITS: u32 = 0x3F00_0000u32;

/// How a query is rewritten before retrieval.
#[derive(Debug, Clone)]
pub enum QueryPreprocessing {
    /// The query is used as it is.
    Passthrough,
    Hyde,
    QueryExpansion { count: usize },
    TranslateToEnglish,
}

/// A filter on chunk metadata.
#[derive(Debug)]
pub enum StructuredFilter {
    MetadataEq { key: String, value: String },
    MetadataIn { key: String, values: Vec<String> },
    MetadataNe { key: String, value: String },
    MetadataExists { key: String },
    SqlFilter(String),
    And(Box<StructuredFilter>, Box<StructuredFilter>),
    Or(Box<StructuredFilter>, Box<StructuredFilter>),
}

/// Two filter trees of the same shape and contents.
pub open spec fn same_filter(a: StructuredFilter, b: StructuredFilter) -> bool
    decreases a,
{
    match a {
        StructuredFilter::MetadataIn { key, values } => (b matches StructuredFilter::MetadataIn { key: k, values: vs }
            && k == key && vs@ == values@),
        StructuredFilter::And(x, y) => (b matches StructuredFilter::And(x2, y2) && same_filter(*x, *x2)
            && same_filter(*y, *y2)),
        StructuredFilter::Or(x, y) => (b matches StructuredFilter::Or(x2, y2) && same_filter(*x, *x2)
            && same_filter(*y, *y2)),
        _ => a == b,
    }
}

/// A copy of a filter tree.
fn copy_filter(f: &StructuredFilter) -> (r: StructuredFilter)
    ensures
        same_filter(*f, r),
    decreases f,
{
    match f {
        StructuredFilter::MetadataEq { key, value } => StructuredFilter::MetadataEq { key: key.clone(), value: value.clone() },
        StructuredFilter::MetadataIn { key, values } => StructuredFilter::MetadataIn { key: key.clone(), values: copy_strings(values) },
        StructuredFilter::MetadataNe { key, value } => StructuredFilter::MetadataNe { key: key.clone(), value: value.clone() },
        StructuredFilter::MetadataExists { key } => StructuredFilter::MetadataExists { key: key.clone() },
        StructuredFilter::SqlFilter(sql) => StructuredFilter::SqlFilter(sql.clone()),
        StructuredFilter::And(a, b) => StructuredFilter::And(Box::new(copy_filter(a)), Box::new(copy_filter(b))),
        StructuredFilter::Or(a, b) => StructuredFilter::Or(Box::new(copy_filter(a)), Box::new(copy_filter(b))),
    }
}

impl Clone for StructuredFilter {
    fn clone(&self) -> (r: Self) {
        copy_filter(self)
    }
}

/// A multi-channel retrieval request.
#[derive(Debug, Clone)]
pub struct RetrieveRequest {
    pub query: String,
    pub channels: Vec<ChannelConfig>,
    pub global_filters: Vec<StructuredFilter>,
    pub top_k: usize,
    pub namespace: Option<String>,
    pub include_embeddings: bool,
    pub query_preprocessing: Option<QueryPreprocessing>,
}

/// Step-by-step construction of a [`RetrieveRequest`].
pub struct RetrieveRequestBuilder {
    query: String,
    channels: Vec<ChannelConfig>,
    global_filters: Vec<StructuredFilter>,
    top_k: usize,
    namespace: Option<String>,
    include_embeddings: bool,
    query_preprocessing: Option<QueryPreprocessing>,
}

impl RetrieveRequest {
    /// A builder with one semantic channel (weight 0.5, top 10), no filters,
    /// top 10, no namespace, no embeddings and no preprocessing.
    pub fn builder(query: String) -> (b: RetrieveRequestBuilder)
        ensures
            b.spec_query() == query@,
            b.spec_channels().len() == 1,
            b.spec_channels()[0].channel_type == ChannelType::Semantic,
            b.spec_channels()[0].weight_bits == HALF_BITS,
            b.spec_channels()[0].top_k == 10,
            b.spec_channels()[0].min_score_bits is None,
            b.spec_filters().len() == 0,
            b.spec_top_k() == 10,
            b.spec_namespace() is None,
            !b.spec_include_embeddings(),
            b.spec_preprocessing() is None,
    {
        let mut channels = Vec::new();
        channels.push(ChannelConfig::semantic(HALF_BITS, 10));
        RetrieveRequestBuilder {
            query,
            channels,
            global_filters: Vec::new(),
            top_k: 10,
            namespace: None,
            include_embeddings: false,
            query_preprocessing: None,
        }
    }
}

impl RetrieveRequestBuilder {
    pub closed spec fn spec_query(&self) -> Seq<char> {
        self.query@
    }

    pub closed spec fn spec_channels(&self) -> Seq<ChannelConfig> {
        self.channels@
    }

    pub closed spec fn spec_filters(&self) -> Seq<StructuredFilter> {
        self.global_filters@
    }

    pub closed spec fn spec_top_k(&self) -> usize {
        self.top_k
    }

    pub closed spec fn spec_namespace(&self) -> Option<Seq<char>> {
        match self.namespace {
            Some(n) => Some(n@),
            None => None,
        }
    }

    pub closed spec fn spec_include_embeddings(&self) -> bool {
        self.include_embeddings
    }

    pub closed spec fn spec_preprocessing(&self) -> Option<QueryPreprocessing> {
        self.query_preprocessing
    }

    pub fn channels(self, channels: Vec<ChannelConfig>) -> (b: Self)
        ensures
            b.spec_channels() == channels@,
            b.spec_query() == self.spec_query(),
            b.spec_filters() == self.spec_filters(),
            b.spec_top_k() == self.spec_top_k(),
            b.spec_namespace() == self.spec_namespace(),
            b.spec_include_embeddings() == self.spec_include_embeddings(),
            b.spec_preprocessing() == self.spec_preprocessing(),
    {
        let mut b = self;
        b.channels = channels;
        b
    }

    pub fn top_k(self, top_k: usize) -> (b: Self)
        ensures
            b.spec_top_k() == top_k,
            b.spec_query() == self.spec_query(),
            b.spec_channels() == self.spec_channels(),
            b.spec_filters() == self.spec_filters(),
            b.spec_namespace() == self.spec_namespace(),
            b.spec_include_embeddings() == self.spec_include_embeddings(),
            b.spec_preprocessing() == self.spec_preprocessing(),
    {
        let mut b = self;
        b.top_k = top_k;
        b
    }

    pub fn namespace(self, ns: String) -> (b: Self)
        ensures
            b.spec_namespace() == Some(ns@),
            b.spec_query() == self.spec_query(),
            b.spec_channels() == self.spec_channels(),
            b.spec_filters() == self.spec_filters(),
            b.spec_top_k() == self.spec_top_k(),
            b.spec_include_embeddings() == self.spec_include_embeddings(),
            b.spec_preprocessing() == self.spec_preprocessing(),
    {
        let mut b = self;
        b.namespace = Some(ns);
        b
    }

    pub fn build(self) -> (r: RetrieveRequest)
        ensures
            r.query@ == self.spec_query(),
            r.channels@ == self.spec_channels(),
            r.global_filters@ == self.spec_filters(),
            r.top_k == self.spec_top_k(),
            r.namespace is Some <==> self.spec_namespace() is Some,
            r.namespace is Some ==> self.spec_namespace() == Some(r.namespace->Some_0@),
            r.include_embeddings == self.spec_include_embeddings(),
            r.query_preprocessing == self.spec_preprocessing(),
    {
        RetrieveRequest {
            query: self.query,
            channels: self.channels,
            global_filters: self.global_filters,
            top_k: self.top_k,
            namespace: self.namespace,
            include_embeddings: self.include_embeddings,
            query_preprocessing: self.query_preprocessing,
        }
    }
}

/// One retrieved chunk. Scores and the embedding are held as the bit patterns of
/// the `f32` values they stand for.
#[derive(Debug, Clone)]
pub struct RetrievedChunk {
    pub chunk_id: String,
    pub document_id: String,
    pub content: String,
    pub score_bits: u32,
    pub channel: String,
    pub channel_score_bits: u32,
    pub metadata: ChunkMetadata,
    pub embedding_bits: Option<Vec<u32>>,
}

/// What one channel contributed to a retrieval.
#[derive(Debug, Clone)]
pub struct ChannelStats {
    pub channel_type: String,
    pub hits: usize,
    pub latency_ms: u64,
    pub min_score_bits: u32,
    pub max_score_bits: u32,
}

/// The outcome of a retrieval. `channel_report` maps each channel's name to its
/// statistics, one entry per channel.
#[derive(Debug, Clone)]
pub struct RetrieveResult {
    pub hits: Vec<RetrievedChunk>,
    pub channel_report: Vec<(String, ChannelStats)>,
    pub latency_ms: u64,
    pub effective_query: String,
}

/// A search hit as channel back ends report it.
#[derive(Debug, Clone)]
pub struct SearchResult {
    pub id: String,
    pub score_bits: u32,
    pub metadata: Vec<(String, String)>,
}

} // verus!
