//! End-to-end requests and responses of the RAG engine, and prompt templates.
use vstd::prelude::*;
use crate::rag::context::{Citation, CitationFormat};
use crate::rag::retrieval::{RetrieveRequest, RetrieveResult};
use crate::text::{replace_all, replace_str};

verus! {

/// Who wrote a chat message.
#[derive(Debug, Clone, Copy, PartialEq, Eq, Structural)]
pub enum ChatRole {
    System,
    User,
    Assistant,
}

/// One message of the conversation so far.
#[derive(Debug, Clone)]
pub struct ChatMessage {
    pub role: ChatRole,
    pub content: String,
}

/// Per-request options.
#[derive(Debug, Clone)]
pub struct RequestOptions {
    pub namespace: Option<String>,
    pub timeout_ms: Option<u64>,
    pub retry_count: Option<u32>,
    pub stream: bool,
}

impl Default for RequestOptions {
    fn default() -> (r: Self)
        ensures
            r.namespace is None,
            r.timeout_ms is None,
            r.retry_count is None,
            !r.stream,
    {
        RequestOptions { namespace: None, timeout_ms: None, retry_count: None, stream: false }
    }
}

/// Bit pattern of the `f32` value 0.7.
pub const SEVEN_TENTHS_BITS: u32 = 0x3F33_3333u32;

/// Generation settings. The temperature is held as the bit pattern of the `f32`
/// it stands for.
#[derive(Debug, Clone)]
pub struct RagGenerationConfig {
    pub max_context_tokens: usize,
    pub model: Option<String>,
    pub temperature_bits: Option<u32>,
    pub max_output_tokens: Option<usize>,
    pub stream: bool,
}

impl Default for RagGenerationConfig {
    /// 4096 context tokens, no model, temperature 0.7, 1024 output tokens, no
    /// streaming.
    fn default() -> (r: Self)
        ensures
            r.max_context_tokens == 4096,
            r.model is None,
            r.temperature_bits == Some(SEVEN_TENTHS_BITS),
            r.max_output_tokens == Some(1024usize),
            !r.stream,
    {
        RagGenerationConfig {
            max_context_tokens: 4096,
            model: None,
            temperature_bits: Some(SEVEN_TENTHS_BITS),
            max_output_tokens: Some(1024),
            stream: false,
        }
    }
}

/// Context-window settings of a request.
#[derive(Debug, Clone)]
pub struct ContextConfig {
    pub max_context_tokens: usize,
    pub system_prompt_reserve: usize,
    pub query_reserve: usize,
    pub output_reserve: usize,
    pub min_chunk_overlap: usize,
    pub citation_format: CitationFormat,
}

impl Default for ContextConfig {
    fn default() -> (r: Self)
        ensures
            r.max_context_tokens == 4096,
            r.system_prompt_reserve == 256,
            r.query_reserve == 128,
            r.output_reserve == 512,
            r.min_chunk_overlap == 50,
            r.citation_format == CitationFormat::Numeric,
    {
        ContextConfig {
            max_context_tokens: 4096,
            system_prompt_reserve: 256,
            query_reserve: 128,
            output_reserve: 512,
            min_chunk_overlap: 50,
            citation_format: CitationFormat::Numeric,
        }
    }
}

/// Token accounting of one RAG call.
#[derive(Debug, Clone, Copy)]
pub struct RagTokenUsage {
    pub context_tokens: usize,
    pub prompt_tokens: usize,
    pub completion_tokens: usize,
    pub total_tokens: usize,
    pub chunks_used: usize,
    pub chunks_dropped: usize,
}

impl Default for RagTokenUsage {
    fn default() -> (r: Self)
        ensures
            r.context_tokens == 0,
            r.prompt_tokens == 0,
            r.completion_tokens == 0,
            r.total_tokens == 0,
            r.chunks_used == 0,
            r.chunks_dropped == 0,
    {
        RagTokenUsage {
            context_tokens: 0,
            prompt_tokens: 0,
            completion_tokens: 0,
            total_tokens: 0,
            chunks_used: 0,
            chunks_dropped: 0,
        }
    }
}

/// An end-to-end request: retrieval, context and generation settings.
#[derive(Debug, Clone)]
pub struct RagRequest {
    pub query: String,
    pub system_prompt: Option<String>,
    pub history: Vec<ChatMessage>,
    pub retrieve_config: RetrieveRequest,
    pub generation: RagGenerationConfig,
    pub context_config: Option<ContextConfig>,
    pub prompt_template: Option<String>,
    pub options: RequestOptions,
}

/// Step-by-step construction of a [`RagRequest`].
pub struct RagRequestBuilder {
    query: String,
    system_prompt: Option<String>,
    history: Vec<ChatMessage>,
    retrieve_config: RetrieveRequest,
    generation: RagGenerationConfig,
    context_config: Option<ContextConfig>,
    prompt_template: Option<String>,
    options: RequestOptions,
}

impl RagRequest {
    /// A builder with no system prompt, no history, the default retrieval request
    /// for the empty query, default generation settings and options, and neither
    /// a context configuration nor a template name.
    pub fn builder(query: String) -> (b: RagRequestBuilder)
        ensures
            b.spec_build().query@ == query@,
            b.spec_build().system_prompt is None,
            b.spec_build().history@.len() == 0,
            b.spec_build().retrieve_config.query@.len() == 0,
            b.spec_build().retrieve_config.top_k == 10,
            b.spec_build().retrieve_config.channels@.len() == 1,
            b.spec_build().generation.max_context_tokens == 4096,
            b.spec_build().context_config is None,
            b.spec_build().prompt_template is None,
            b.spec_build().options.namespace is None,
            !b.spec_build().options.stream,
    {
        let rc = RetrieveRequest::builder(String::new()).build();
        RagRequestBuilder {
            query,
            system_prompt: None,
            history: Vec::new(),
            retrieve_config: rc,
            generation: RagGenerationConfig::default(),
            context_config: None,
            prompt_template: None,
            options: RequestOptions::default(),
        }
    }
}

impl RagRequestBuilder {
    /// The request this builder makes.
    pub closed spec fn spec_build(&self) -> RagRequest {
        RagRequest {
            query: self.query,
            system_prompt: self.system_prompt,
            history: self.history,
            retrieve_config: self.retrieve_config,
            generation: self.generation,
            context_config: self.context_config,
            prompt_template: self.prompt_template,
            options: self.options,
        }
    }

    pub fn system_prompt(self, sp: String) -> (b: Self)
        ensures
            b.spec_build() == (RagRequest { system_prompt: Some(sp), ..self.spec_build() }),
    {
        let mut b = self;
        b.system_prompt = Some(sp);
        b
    }

    pub fn history(self, h: Vec<ChatMessage>) -> (b: Self)
        ensures
            b.spec_build() == (RagRequest { history: h, ..self.spec_build() }),
    {
        let mut b = self;
        b.history = h;
        b
    }

    pub fn retrieve_config(self, rc: RetrieveRequest) -> (b: Self)
        ensures
            b.spec_build() == (RagRequest { retrieve_config: rc, ..self.spec_build() }),
    {
        let mut b = self;
        b.retrieve_config = rc;
        b
    }

    pub fn generation(self, g: RagGenerationConfig) -> (b: Self)
        ensures
            b.spec_build() == (RagRequest { generation: g, ..self.spec_build() }),
    {
        let mut b = self;
        b.generation = g;
        b
    }

    pub fn context_config(self, cc: ContextConfig) -> (b: Self)
        ensures
            b.spec_build() == (RagRequest { context_config: Some(cc), ..self.spec_build() }),
    {
        let mut b = self;
        b.context_config = Some(cc);
        b
    }

    pub fn prompt_template(self, pt: String) -> (b: Self)
        ensures
            b.spec_build() == (RagRequest { prompt_template: Some(pt), ..self.spec_build() }),
    {
        let mut b = self;
        b.prompt_template = Some(pt);
        b
    }

    pub fn options(self, opts: RequestOptions) -> (b: Self)
        ensures
            b.spec_build() == (RagRequest { options: opts, ..self.spec_build() }),
    {
        let mut b = self;
        b.options = opts;
        b
    }

    pub fn build(self) -> (r: RagRequest)
        ensures
            r == self.spec_build(),
    {
        RagRequest {
            query: self.query,
            system_prompt: self.system_prompt,
            history: self.history,
            retrieve_config: self.retrieve_config,
            generation: self.generation,
            context_config: self.context_config,
            prompt_template: self.prompt_template,
            options: self.options,
        }
    }
}

/// The answer of an end-to-end call.
#[derive(Debug, Clone)]
pub struct RagResponse {
    pub answer: String,
    pub citations: Vec<Citation>,
    pub usage: RagTokenUsage,
    pub retrieve_stats: RetrieveResult,
    pub total_latency_ms: u64,
    pub model: Option<String>,
}

/// Events of a streamed RAG call.
#[derive(Debug, Clone)]
pub enum RagStreamEvent {
    RetrievalStarted { channel_count: usize },
    ChannelDone { channel: String, hits: usize, latency_ms: u64 },
    GenerationStarted { context_chunks: usize, context_tokens: usize },
    ContentDelta { delta: String },
    Citation { chunk_id: String, index: usize },
    Done { total_latency_ms: u64, citations: Vec<Citation>, usage: RagTokenUsage },
}

/// How prompts are worded.
#[derive(Debug, Clone)]
pub struct PromptTemplate {
    pub name: String,
    pub system: String,
    pub user_template: String,
    pub context_prefix: String,
    pub chunk_format: String,
    pub context_suffix: String,
    pub citation_instruction: String,
}

/// `template` with `{query}` replaced by the query and then `{context}` by the
/// context.
pub open spec fn rendered(template: Seq<char>, query: Seq<char>, context: Seq<char>) -> Seq<char> {
    replace_all(replace_all(template, "{query}"@, query), "{context}"@, context)
}

impl PromptTemplate {
    /// The question-answering template.
    pub fn default_qa() -> (t: Self)
        ensures
            t.name@ == "default_qa"@,
            t.system@ == "You are a helpful assistant. Answer the user's question based on the provided context."@,
            t.user_template@ == "Question: {query}\n\nContext:\n{context}\n\nAnswer:"@,
            t.context_prefix@ == "Relevant information:\n"@,
            t.chunk_format@ == "[{index}] {content}\n"@,
            t.context_suffix@ == "\n"@,
            t.citation_instruction@ == "Please cite sources using [N] notation when referencing the context."@,
    {
        PromptTemplate {
            name: String::from_str("default_qa"),
            system: String::from_str(
                "You are a helpful assistant. Answer the user's question based on the provided context.",
            ),
            user_template: String::from_str("Question: {query}\n\nContext:\n{context}\n\nAnswer:"),
            context_prefix: String::from_str("Relevant information:\n"),
            chunk_format: String::from_str("[{index}] {content}\n"),
            context_suffix: String::from_str("\n"),
            citation_instruction: String::from_str(
                "Please cite sources using [N] notation when referencing the context.",
            ),
        }
    }

    /// The user template with the query and the context filled in.
    pub fn render(&self, query: &str, context: &str) -> (r: String)
        ensures
            r@ == rendered(self.user_template@, query@, context@),
    {
        proof {
            reveal_strlit("{query}");
            reveal_strlit("{context}");
        }
        let with_query = replace_str(self.user_template.as_str(), "{query}", query);
        replace_str(with_query.as_str(), "{context}", context)
    }
}

} // verus!
