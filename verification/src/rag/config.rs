//! Configuration of the RAG engine, section by section.
use vstd::prelude::*;
use crate::rag::engine::TENTH_BITS;
use crate::rag::retrieval::HALF_BITS;

verus! {

/// Bit pattern of the `f32` value 0.2.
pub const FIFTH_BITS: u32 = 0x3E4C_CCCDu32;

/// The whole configuration.
#[derive(Debug, Clone)]
pub struct RagConfig {
    pub engine: EngineSection,
    pub channels: ChannelSection,
    pub fusion: FusionSection,
    pub reranking: RerankingSection,
    pub context: ContextSection,
    pub chunking: ChunkingSection,
    pub query_preprocessing: QueryPreprocessingSection,
    pub prompt_templates: Vec<TemplateSection>,
    pub cache: CacheSection,
}

impl Default for RagConfig {
    /// Every section at its default, with no prompt templates.
    fn default() -> (r: Self)
        ensures
            r.engine.name@ == "default"@,
            r.prompt_templates@.len() == 0,
            r.fusion.rrf_k == 60,
            !r.cache.enabled,
    {
        RagConfig {
            engine: EngineSection::default(),
            channels: ChannelSection::default(),
            fusion: FusionSection::default(),
            reranking: RerankingSection::default(),
            context: ContextSection::default(),
            chunking: ChunkingSection::default(),
            query_preprocessing: QueryPreprocessingSection::default(),
            prompt_templates: Vec::new(),
            cache: CacheSection::default(),
        }
    }
}

#[derive(Debug, Clone)]
pub struct EngineSection {
    pub name: String,
    pub namespace: Option<String>,
}

impl Default for EngineSection {
    fn default() -> (r: Self)
        ensures
            r.name@ == "default"@,
            r.namespace is None,
    {
        EngineSection { name: String::from_str("default"), namespace: None }
    }
}

/// One channel's settings. Weight and minimum score are held as the bit
/// patterns of the `f32` values they stand for.
#[derive(Debug, Clone, Copy)]
pub struct ChannelDef {
    pub weight_bits: u32,
    pub top_k: usize,
    pub min_score_bits: Option<u32>,
}

#[derive(Debug, Clone, Copy)]
pub struct ChannelSection {
    pub semantic: Option<ChannelDef>,
    pub bm25: Option<ChannelDef>,
    pub metadata: Option<ChannelDef>,
}

impl Default for ChannelSection {
    /// Semantic (0.5, top 10, minimum 0.1) and metadata (0.2, top 5) channels.
    fn default() -> (r: Self)
        ensures
            r.semantic == Some(ChannelDef { weight_bits: HALF_BITS, top_k: 10, min_score_bits: Some(TENTH_BITS) }),
            r.bm25 is None,
            r.metadata == Some(ChannelDef { weight_bits: FIFTH_BITS, top_k: 5, min_score_bits: None }),
    {
        ChannelSection {
            semantic: Some(ChannelDef { weight_bits: HALF_BITS, top_k: 10, min_score_bits: Some(TENTH_BITS) }),
            bm25: None,
            metadata: Some(ChannelDef { weight_bits: FIFTH_BITS, top_k: 5, min_score_bits: None }),
        }
    }
}

#[derive(Debug, Clone)]
pub struct FusionSection {
    pub algorithm: String,
    pub rrf_k: usize,
    pub normalize_scores: bool,
}

impl Default for FusionSection {
    fn default() -> (r: Self)
        ensures
            r.algorithm@ == "rrf"@,
            r.rrf_k == 60,
            r.normalize_scores,
    {
        FusionSection { algorithm: String::from_str("rrf"), rrf_k: 60, normalize_scores: true }
    }
}

#[derive(Debug, Clone)]
pub struct RerankingSection {
    pub enabled: bool,
    pub reranker: Option<String>,
}

impl Default for RerankingSection {
    fn default() -> (r: Self)
        ensures
            !r.enabled,
            r.reranker is None,
    {
        RerankingSection { enabled: false, reranker: None }
    }
}

#[derive(Debug, Clone)]
pub struct ContextSection {
    pub max_context_tokens: usize,
    pub system_prompt_reserve: usize,
    pub query_reserve: usize,
    pub output_reserve: usize,
    pub citation_format: String,
    pub chunk_overlap: usize,
    pub separator: String,
}

impl Default for ContextSection {
    fn default() -> (r: Self)
        ensures
            r.max_context_tokens == 4096,
            r.system_prompt_reserve == 256,
            r.query_reserve == 128,
            r.output_reserve == 512,
            r.citation_format@ == "numeric"@,
            r.chunk_overlap == 50,
            r.separator@ == "\n---\n"@,
    {
        ContextSection {
            max_context_tokens: 4096,
            system_prompt_reserve: 256,
            query_reserve: 128,
            output_reserve: 512,
            citation_format: String::from_str("numeric"),
            chunk_overlap: 50,
            separator: String::from_str("\n---\n"),
        }
    }
}

#[derive(Debug, Clone)]
pub struct ChunkerDef {
    pub chunk_size: usize,
    pub overlap: usize,
    pub separators: Vec<String>,
}

#[derive(Debug, Clone, Copy)]
pub struct FixedChunkerDef {
    pub chunk_size: usize,
    pub overlap: usize,
}

#[derive(Debug, Clone)]
pub struct ChunkingSection {
    pub default_strategy: String,
    pub recursive: Option<ChunkerDef>,
    pub fixed: Option<FixedChunkerDef>,
}

impl Default for ChunkingSection {
    /// Recursive chunking by default; 512-character chunks with overlap 50 for
    /// both strategies, the recursive one splitting at paragraphs, lines,
    /// sentences and words.
    fn default() -> (r: Self)
        ensures
            r.default_strategy@ == "recursive"@,
            r.recursive matches Some(d) && d.chunk_size == 512 && d.overlap == 50 && d.separators@.len() == 4
                && d.separators@[0]@ == "\n\n"@ && d.separators@[1]@ == "\n"@ && d.separators@[2]@ == ". "@
                && d.separators@[3]@ == " "@,
            r.fixed == Some(FixedChunkerDef { chunk_size: 512, overlap: 50 }),
    {
        let mut seps = Vec::new();
        seps.push(String::from_str("\n\n"));
        seps.push(String::from_str("\n"));
        seps.push(String::from_str(". "));
        seps.push(String::from_str(" "));
        ChunkingSection {
            default_strategy: String::from_str("recursive"),
            recursive: Some(ChunkerDef { chunk_size: 512, overlap: 50, separators: seps }),
            fixed: Some(FixedChunkerDef { chunk_size: 512, overlap: 50 }),
        }
    }
}

#[derive(Debug, Clone)]
pub struct HydeDef {
    pub prompt_template: String,
}

#[derive(Debug, Clone, Copy)]
pub struct QueryExpansionDef {
    pub count: usize,
}

#[derive(Debug, Clone)]
pub struct QueryPreprocessingSection {
    pub hyde: Option<HydeDef>,
    pub query_expansion: Option<QueryExpansionDef>,
}

impl Default for QueryPreprocessingSection {
    fn default() -> (r: Self)
        ensures
            r.hyde is None,
            r.query_expansion is None,
    {
        QueryPreprocessingSection { hyde: None, query_expansion: None }
    }
}

#[derive(Debug, Clone)]
pub struct TemplateSection {
    pub name: String,
    pub system: String,
    pub user_template: String,
}

#[derive(Debug, Clone, Copy)]
pub struct CacheSection {
    pub enabled: bool,
    pub ttl_seconds: u64,
    pub max_entries: usize,
}

impl Default for CacheSection {
    fn default() -> (r: Self)
        ensures
            !r.enabled,
            r.ttl_seconds == 3600,
            r.max_entries == 1000,
    {
        CacheSection { enabled: false, ttl_seconds: 3600, max_entries: 1000 }
    }
}

} // verus!
