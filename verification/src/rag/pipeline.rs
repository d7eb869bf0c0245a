//! Retrieval channels and the pipeline that combines them.
use vstd::prelude::*;
use crate::text::str_eq;

verus! {

/// A retrieval channel.
#[derive(Debug, Clone, PartialEq, Eq, Hash)]
pub enum ChannelType {
    Semantic,
    Metadata,
    Bm25,
    FullText,
    Graph,
    Custom(String),
}

/// The name a channel reports under.
pub open spec fn channel_name(t: ChannelType) -> Seq<char> {
    match t {
        ChannelType::Semantic => "semantic"@,
        ChannelType::Metadata => "metadata"@,
        ChannelType::Bm25 => "bm25"@,
        ChannelType::FullText => "fulltext"@,
        ChannelType::Graph => "graph"@,
        ChannelType::Custom(s) => s@,
    }
}

impl ChannelType {
    pub fn as_str(&self) -> (r: &str)
        ensures
            r@ == channel_name(*self),
    {
        match self {
            ChannelType::Semantic => "semantic",
            ChannelType::Metadata => "metadata",
            ChannelType::Bm25 => "bm25",
            ChannelType::FullText => "fulltext",
            ChannelType::Graph => "graph",
            ChannelType::Custom(s) => s.as_str(),
        }
    }
}

/// The keys of a parameter list, in order.
pub open spec fn param_keys(params: Seq<(String, serde_json::Value)>) -> Seq<Seq<char>> {
    params.map_values(|p: (String, serde_json::Value)| p.0@)
}

/// Position of the first parameter named `key`, or -1.
pub open spec fn param_index(params: Seq<(String, serde_json::Value)>, key: Seq<char>) -> int
    decreases params.len(),
{
    if params.len() == 0 {
        -1
    } else if param_index(params.drop_last(), key) >= 0 {
        param_index(params.drop_last(), key)
    } else if params.last().0@ == key {
        params.len() - 1
    } else {
        -1
    }
}

pub proof fn lemma_param_index(params: Seq<(String, serde_json::Value)>, key: Seq<char>)
    ensures
        -1 <= param_index(params, key) < params.len(),
        param_index(params, key) >= 0 ==> params[param_index(params, key)].0@ == key,
        param_index(params, key) >= 0 ==> forall|j: int| 0 <= j < param_index(params, key) ==> params[j].0@ != key,
        param_index(params, key) < 0 ==> forall|j: int| 0 <= j < params.len() ==> params[j].0@ != key,
    decreases params.len(),
{
    if params.len() > 0 {
        let p = params.drop_last();
        lemma_param_index(p, key);
        assert forall|j: int| 0 <= j < p.len() implies p[j] == params[j] by {}
    }
}

/// Per-channel configuration. The weight and minimum score are held as the bit
/// patterns of the `f32` values they stand for; the parameters are a map kept as
/// a list of distinct keys in insertion order.
#[derive(Debug, Clone)]
pub struct ChannelConfig {
    pub channel_type: ChannelType,
    pub weight_bits: u32,
    pub top_k: usize,
    pub min_score_bits: Option<u32>,
    pub params: Vec<(String, serde_json::Value)>,
}

impl ChannelConfig {
    pub fn new(channel_type: ChannelType, weight_bits: u32, top_k: usize) -> (r: Self)
        ensures
            r.channel_type == channel_type,
            r.weight_bits == weight_bits,
            r.top_k == top_k,
            r.min_score_bits is None,
            r.params@.len() == 0,
    {
        ChannelConfig { channel_type, weight_bits, top_k, min_score_bits: None, params: Vec::new() }
    }

    pub fn semantic(weight_bits: u32, top_k: usize) -> (r: Self)
        ensures
            r.channel_type == ChannelType::Semantic,
            r.weight_bits == weight_bits,
            r.top_k == top_k,
            r.min_score_bits is None,
            r.params@.len() == 0,
    {
        Self::new(ChannelType::Semantic, weight_bits, top_k)
    }

    pub fn metadata(weight_bits: u32, top_k: usize) -> (r: Self)
        ensures
            r.channel_type == ChannelType::Metadata,
            r.weight_bits == weight_bits,
            r.top_k == top_k,
            r.min_score_bits is None,
            r.params@.len() == 0,
    {
        Self::new(ChannelType::Metadata, weight_bits, top_k)
    }

    pub fn with_min_score(self, min_score_bits: u32) -> (r: Self)
        ensures
            r.channel_type == self.channel_type,
            r.weight_bits == self.weight_bits,
            r.top_k == self.top_k,
            r.min_score_bits == Some(min_score_bits),
            r.params@ == self.params@,
    {
        let mut c = self;
        c.min_score_bits = Some(min_score_bits);
        c
    }

    /// Sets parameter `key` to `value`: an existing parameter of that name keeps
    /// its place and takes the new value; otherwise the parameter is appended.
    pub fn with_param(self, key: String, value: serde_json::Value) -> (r: Self)
        ensures
            r.channel_type == self.channel_type,
            r.weight_bits == self.weight_bits,
            r.top_k == self.top_k,
            r.min_score_bits == self.min_score_bits,
            param_index(self.params@, key@) >= 0 ==> {
                let i = param_index(self.params@, key@);
                &&& r.params@.len() == self.params@.len()
                &&& r.params@[i].0@ == key@
                &&& r.params@[i].1 == value
                &&& forall|j: int| 0 <= j < r.params@.len() && j != i ==> r.params@[j] == self.params@[j]
            },
            param_index(self.params@, key@) < 0 ==> r.params@ == self.params@.push((key, value)),
    {
        let mut c = self;
        let ghost old_params = c.params@;
        proof {
            lemma_param_index(old_params, key@);
        }
        let mut i: usize = 0;
        while i < c.params.len()
            invariant
                c.params@ == old_params,
                old_params == self.params@,
                c.channel_type == self.channel_type,
                c.weight_bits == self.weight_bits,
                c.top_k == self.top_k,
                c.min_score_bits == self.min_score_bits,
                i <= old_params.len(),
                forall|j: int| 0 <= j < i ==> old_params[j].0@ != key@,
            decreases c.params.len() - i,
        {
            if str_eq(c.params[i].0.as_str(), key.as_str()) {
                proof {
                    lemma_param_index(old_params, key@);
                    assert(param_index(old_params, key@) == i as int) by {
                        if param_index(old_params, key@) < i {
                            assert(false);
                        }
                        if param_index(old_params, key@) > i {
                            assert(false);
                        }
                    }
                }
                c.params.set(i, (key, value));
                return c;
            }
            i = i + 1;
        }
        proof {
            assert(param_index(old_params, key@) < 0);
        }
        c.params.push((key, value));
        c
    }
}

/// Orchestration of several channels and the fusion of their results.
#[derive(Debug, Clone)]
pub struct ChannelPipeline {
    pub channels: Vec<ChannelConfig>,
    pub rrf_k: usize,
    pub normalize_scores: bool,
}

impl ChannelPipeline {
    /// A pipeline with RRF constant 60 and score normalisation on.
    pub fn new(channels: Vec<ChannelConfig>) -> (r: Self)
        ensures
            r.channels@ == channels@,
            r.rrf_k == 60,
            r.normalize_scores,
    {
        ChannelPipeline { channels, rrf_k: 60, normalize_scores: true }
    }

    pub fn with_rrf_k(self, k: usize) -> (r: Self)
        ensures
            r.channels@ == self.channels@,
            r.rrf_k == k,
            r.normalize_scores == self.normalize_scores,
    {
        let mut p = self;
        p.rrf_k = k;
        p
    }

    pub fn with_normalize(self, normalize: bool) -> (r: Self)
        ensures
            r.channels@ == self.channels@,
            r.rrf_k == self.rrf_k,
            r.normalize_scores == normalize,
    {
        let mut p = self;
        p.normalize_scores = normalize;
        p
    }
}

/// Reciprocal rank fusion with constant `k`.
#[derive(Debug, Clone)]
pub struct RrfFusion {
    pub k: usize,
}

impl RrfFusion {
    pub fn new(k: usize) -> (r: Self)
        ensures
            r.k == k,
    {
        RrfFusion { k }
    }
}

/// Min-max score scaling onto [0, 1].
#[derive(Debug, Clone)]
pub struct MinMaxNormalizer;

/// Z-score scaling, clamped to [0, 1].
#[derive(Debug, Clone)]
pub struct ZScoreNormalizer;

} // verus!
