//! The synchronous core of the RAG engine: what is decided between retrieval
//! and generation, and the components that need no outside service.
use vstd::prelude::*;
use crate::rag::context::{cites, context_text, greedy, BuiltContext, Citation, ContextBuilder};
use crate::provider::error::{spec_error_message, ProviderError};
use crate::provider::message::{Message, MessageContent, StreamEvent};
use crate::provider::request::CompletionRequest;
use crate::rag::error::RagError;
use crate::rag::pipeline::{channel_name, ChannelConfig, ChannelPipeline, ChannelType};
use crate::rag::request::{
    rendered, ChatMessage, ChatRole, PromptTemplate, RagRequest, RagResponse, RagStreamEvent,
    RagTokenUsage,
};
use crate::rag::retrieval::{RetrieveRequest, RetrieveResult, RetrievedChunk, StructuredFilter, HALF_BITS};
use crate::text::{
    byte_len, char_is_white_space, chars_of, decimal, find_from, is_white_space, matches_at, push_str, str_eq, str_len,
    string_from_chars, usize_to_decimal,
};
use crate::provider::wire::{lines_of, text_lines};

verus! {

/// Bit pattern of the `f32` value 0.1.
pub const TENTH_BITS: u32 = 0x3DCC_CCCDu32;

/// Bit pattern of the `f32` value 0.3.
pub const THREE_TENTHS_BITS: u32 = 0x3E99_999Au32;

/// The key under which a retrieval is cached: `rag:{namespace}:{query}`, with
/// `default` for a missing namespace.
pub open spec fn cache_key(query: Seq<char>, namespace: Option<Seq<char>>) -> Seq<char> {
    match namespace {
        Some(ns) => "rag:"@ + ns + ":"@ + query,
        None => "rag:default:"@ + query,
    }
}

pub fn build_cache_key(query: &str, namespace: &Option<String>) -> (r: String)
    ensures
        r@ == cache_key(query@, match namespace { Some(n) => Some(n@), None => None }),
{
    let mut k = String::new();
    match namespace {
        Some(ns) => {
            push_str(&mut k, "rag:");
            push_str(&mut k, ns.as_str());
            push_str(&mut k, ":");
        },
        None => {
            push_str(&mut k, "rag:default:");
        },
    }
    push_str(&mut k, query);
    proof {
        assert(k@ =~= cache_key(query@, match namespace { Some(n) => Some(n@), None => None }));
    }
    k
}

/// The label of a role in the conversation transcript.
pub open spec fn role_label(r: ChatRole) -> Seq<char> {
    match r {
        ChatRole::System => "System"@,
        ChatRole::User => "User"@,
        ChatRole::Assistant => "Assistant"@,
    }
}

/// The transcript of the conversation: one `Role: content` line per message.
pub open spec fn transcript(h: Seq<ChatMessage>) -> Seq<char>
    decreases h.len(),
{
    if h.len() == 0 {
        Seq::empty()
    } else {
        transcript(h.drop_last()) + role_label(h.last().role) + ": "@ + h.last().content@ + "\n"@
    }
}

/// The full prompt: the system prompt (the template's when none is given), a
/// blank line, and the rendered user template; with history, the transcript,
/// the context and the question in a fixed layout instead of the template.
pub open spec fn assembled_prompt(
    t: PromptTemplate,
    query: Seq<char>,
    context: Seq<char>,
    system_prompt: Option<Seq<char>>,
    history: Seq<ChatMessage>,
) -> Seq<char> {
    let system = match system_prompt {
        Some(s) => s,
        None => t.system@,
    };
    let block = t.context_prefix@ + context + t.context_suffix@;
    let hist = transcript(history);
    let user = if hist.len() == 0 {
        rendered(t.user_template@, query, block)
    } else {
        "Previous conversation:\n"@ + hist + "\n\nContext:\n"@ + block + "\n\nQuestion: "@ + query
    };
    system + "\n\n"@ + user
}

/// Builds the prompt for generation (see [`assembled_prompt`]).
pub fn assemble_prompt(
    template: &PromptTemplate,
    query: &str,
    context: &BuiltContext,
    system_prompt: Option<&str>,
    history: &[ChatMessage],
) -> (r: String)
    ensures
        r@ == assembled_prompt(
            *template,
            query@,
            context.context_text@,
            match system_prompt { Some(s) => Some(s@), None => None },
            history@,
        ),
{
    let mut block = String::new();
    push_str(&mut block, template.context_prefix.as_str());
    push_str(&mut block, context.context_text.as_str());
    push_str(&mut block, template.context_suffix.as_str());
    let mut hist = String::new();
    let mut i: usize = 0;
    while i < history.len()
        invariant
            i <= history@.len(),
            hist@ == transcript(history@.take(i as int)),
        decreases history.len() - i,
    {
        let m = &history[i];
        let ghost before = hist@;
        proof {
            assert(history@.take(i + 1).drop_last() =~= history@.take(i as int));
            assert(history@.take(i + 1).last() == history@[i as int]);
        }
        let role = match m.role {
            ChatRole::System => "System",
            ChatRole::User => "User",
            ChatRole::Assistant => "Assistant",
        };
        push_str(&mut hist, role);
        push_str(&mut hist, ": ");
        push_str(&mut hist, m.content.as_str());
        push_str(&mut hist, "\n");
        proof {
            assert(hist@ =~= before + role_label(m.role) + ": "@ + m.content@ + "\n"@);
        }
        i = i + 1;
    }
    proof {
        assert(history@.take(history@.len() as int) =~= history@);
    }
    let user = if hist.as_str().is_empty() {
        template.render(query, block.as_str())
    } else {
        let mut u = String::new();
        push_str(&mut u, "Previous conversation:\n");
        push_str(&mut u, hist.as_str());
        push_str(&mut u, "\n\nContext:\n");
        push_str(&mut u, block.as_str());
        push_str(&mut u, "\n\nQuestion: ");
        push_str(&mut u, query);
        u
    };
    let mut out = String::new();
    match system_prompt {
        Some(s) => push_str(&mut out, s),
        None => push_str(&mut out, template.system.as_str()),
    }
    push_str(&mut out, "\n\n");
    push_str(&mut out, user.as_str());
    proof {
        assert(out@ =~= assembled_prompt(
            *template,
            query@,
            context.context_text@,
            match system_prompt { Some(s) => Some(s@), None => None },
            history@,
        ));
    }
    out
}

/// The answer given when no language model is configured.
pub open spec fn placeholder_text(query: Seq<char>, chunks_used: nat, context: Seq<char>) -> Seq<char> {
    "RAG Response for: '"@ + query + "'\n\nBased on "@ + decimal(chunks_used) + " context chunks:\n"@ + context
}

pub fn placeholder_answer(query: &str, context: &BuiltContext) -> (r: String)
    ensures
        r@ == placeholder_text(query@, context.chunks_used as nat, context.context_text@),
{
    let n = usize_to_decimal(context.chunks_used);
    let mut out = String::new();
    push_str(&mut out, "RAG Response for: '");
    push_str(&mut out, query);
    push_str(&mut out, "'\n\nBased on ");
    push_str(&mut out, n.as_str());
    push_str(&mut out, " context chunks:\n");
    push_str(&mut out, context.context_text.as_str());
    proof {
        assert(out@ =~= placeholder_text(query@, context.chunks_used as nat, context.context_text@));
    }
    out
}

/// Token accounting of a call: the context's tokens, a quarter of the prompt's
/// and the answer's byte lengths, a quarter of their sum, and the chunk counts.
pub fn response_usage(context: &BuiltContext, prompt: &str, answer: &str) -> (u: RagTokenUsage)
    ensures
        u.context_tokens == context.tokens_used,
        u.prompt_tokens == str_len(prompt@) / 4,
        u.completion_tokens == str_len(answer@) / 4,
        u.total_tokens == (str_len(prompt@) + str_len(answer@)) / 4,
        u.chunks_used == context.chunks_used,
        u.chunks_dropped == context.chunks_dropped,
{
    let p = byte_len(prompt);
    let a = byte_len(answer);
    let total = p / 4 + a / 4 + (p % 4 + a % 4) / 4;
    proof {
        assert(total as int == (p as int + a as int) / 4) by (nonlinear_arith)
            requires total as int == p as int / 4 + a as int / 4 + (p as int % 4 + a as int % 4) / 4,
                p >= 0, a >= 0;
    }
    RagTokenUsage {
        context_tokens: context.tokens_used,
        prompt_tokens: p / 4,
        completion_tokens: a / 4,
        total_tokens: total,
        chunks_used: context.chunks_used,
        chunks_dropped: context.chunks_dropped,
    }
}

/// Name, version and abilities of an engine.
#[derive(Debug, Clone)]
pub struct RagEngineInfo {
    pub name: String,
    pub version: String,
    pub supported_channels: Vec<String>,
    pub supports_streaming: bool,
    pub reranking_enabled: bool,
    pub max_context_window: usize,
}

/// The channel names an engine reports: the pipeline's channels in order, and
/// `graph` after them when a graph store is attached and no channel bears that
/// name.
pub open spec fn supported_names(channels: Seq<ChannelConfig>, has_graph: bool) -> Seq<Seq<char>> {
    let names = channels.map_values(|c: ChannelConfig| channel_name(c.channel_type));
    if has_graph && !names.contains("graph"@) { names.push("graph"@) } else { names }
}

/// The configured parts of a RAG engine that need no outside service.
pub struct EngineCore {
    pub info: RagEngineInfo,
    pub pipeline: ChannelPipeline,
    pub context_builder: ContextBuilder,
    pub prompt_template: PromptTemplate,
}

impl EngineCore {
    /// The reserves of the context builder add up without overflow.
    pub open spec fn wf(&self) -> bool {
        self.context_builder.reserved() <= usize::MAX
    }

    /// An engine from what its builder was given: name `default`, version
    /// `0.1.0`, a semantic (0.5, top 10, minimum 0.1) and a metadata (0.3, top 5)
    /// channel, a 4096-token context builder and the question-answering template
    /// stand in for what is missing. The context window reported is the builder's
    /// budget, or 4096 without a builder.
    pub fn from_parts(
        name: Option<String>,
        version: Option<String>,
        pipeline: Option<ChannelPipeline>,
        context_builder: Option<ContextBuilder>,
        prompt_template: Option<PromptTemplate>,
        has_graph_store: bool,
    ) -> (e: Self)
        requires
            context_builder matches Some(cb) ==> cb.reserved() <= usize::MAX,
        ensures
            e.wf(),
            e.info.name@ == (match name { Some(n) => n@, None => "default"@ }),
            e.info.version@ == (match version { Some(v) => v@, None => "0.1.0"@ }),
            pipeline matches Some(p) ==> e.pipeline.channels@ == p.channels@ && e.pipeline.rrf_k == p.rrf_k
                && e.pipeline.normalize_scores == p.normalize_scores,
            pipeline is None ==> {
                &&& e.pipeline.channels@.len() == 2
                &&& e.pipeline.channels@[0].channel_type == crate::rag::pipeline::ChannelType::Semantic
                &&& e.pipeline.channels@[0].weight_bits == HALF_BITS
                &&& e.pipeline.channels@[0].top_k == 10
                &&& e.pipeline.channels@[0].min_score_bits == Some(TENTH_BITS)
                &&& e.pipeline.channels@[1].channel_type == crate::rag::pipeline::ChannelType::Metadata
                &&& e.pipeline.channels@[1].weight_bits == THREE_TENTHS_BITS
                &&& e.pipeline.channels@[1].top_k == 5
                &&& e.pipeline.rrf_k == 60
                &&& e.pipeline.normalize_scores
            },
            e.info.supported_channels@.map_values(|s: String| s@)
                == supported_names(e.pipeline.channels@, has_graph_store),
            !e.info.supports_streaming,
            !e.info.reranking_enabled,
            e.info.max_context_window == (match context_builder { Some(cb) => cb.budget(), None => 4096 }),
            context_builder matches Some(cb) ==> e.context_builder == cb,
            context_builder is None ==> e.context_builder.total() == 4096
                && e.context_builder.reserved() == 896,
            prompt_template matches Some(t) ==> e.prompt_template == t,
            prompt_template is None ==> e.prompt_template.user_template@
                == "Question: {query}\n\nContext:\n{context}\n\nAnswer:"@,
    {
        let pipeline = match pipeline {
            Some(p) => p,
            None => {
                let mut chans: Vec<ChannelConfig> = Vec::new();
                chans.push(ChannelConfig::semantic(HALF_BITS, 10).with_min_score(TENTH_BITS));
                chans.push(ChannelConfig::metadata(THREE_TENTHS_BITS, 5));
                ChannelPipeline::new(chans)
            },
        };
        let mut names: Vec<String> = Vec::new();
        let mut has_graph_name = false;
        let mut i: usize = 0;
        let ghost all = pipeline.channels@.map_values(|c: ChannelConfig| channel_name(c.channel_type));
        while i < pipeline.channels.len()
            invariant
                i <= pipeline.channels@.len(),
                all == pipeline.channels@.map_values(|c: ChannelConfig| channel_name(c.channel_type)),
                names@.map_values(|s: String| s@) == all.take(i as int),
                has_graph_name == all.take(i as int).contains("graph"@),
            decreases pipeline.channels.len() - i,
        {
            let name = pipeline.channels[i].channel_type.as_str();
            let is_graph = str_eq(name, "graph");
            proof {
                assert(all.take(i + 1) =~= all.take(i as int).push(name@));
                if is_graph {
                    assert(all.take(i + 1)[i as int] == "graph"@);
                }
                if !is_graph && !has_graph_name {
                    let t = all.take(i + 1);
                    assert forall|j: int| 0 <= j < t.len() implies #[trigger] t[j] != "graph"@ by {
                        if j < i {
                            assert(t[j] == all.take(i as int)[j]);
                        }
                    }
                }
            }
            names.push(String::from_str(name));
            proof {
                assert(names@.map_values(|s: String| s@) =~= all.take(i + 1));
            }
            has_graph_name = has_graph_name || is_graph;
            i = i + 1;
        }
        proof {
            assert(all.take(pipeline.channels@.len() as int) =~= all);
        }
        if has_graph_store && !has_graph_name {
            names.push(String::from_str("graph"));
            proof {
                assert(names@.map_values(|s: String| s@) =~= all.push("graph"@));
            }
        }
        let window = match &context_builder {
            Some(cb) => cb.context_budget(),
            None => 4096,
        };
        let builder = match context_builder {
            Some(cb) => cb,
            None => ContextBuilder::new(4096),
        };
        let template = match prompt_template {
            Some(t) => t,
            None => PromptTemplate::default_qa(),
        };
        let info = RagEngineInfo {
            name: match name {
                Some(n) => n,
                None => String::from_str("default"),
            },
            version: match version {
                Some(v) => v,
                None => String::from_str("0.1.0"),
            },
            supported_channels: names,
            supports_streaming: false,
            reranking_enabled: false,
            max_context_window: window,
        };
        EngineCore { info, pipeline, context_builder: builder, prompt_template: template }
    }

    /// The context of a generation from the retrieved hits.
    pub fn build_context(&self, chunks: &[RetrievedChunk], query: &str) -> (r: BuiltContext)
        requires
            self.wf(),
        ensures
            r.context_text@ == context_text(chunks@, greedy(chunks@, self.context_builder.budget()).0,
                self.context_builder.format()),
            r.chunks_used == greedy(chunks@, self.context_builder.budget()).0.len(),
            r.tokens_used == greedy(chunks@, self.context_builder.budget()).1,
            r.chunks_dropped == chunks@.len() - greedy(chunks@, self.context_builder.budget()).0.len(),
            r.citations@.len() == greedy(chunks@, self.context_builder.budget()).0.len(),
            forall|k: int| 0 <= k < r.citations@.len() ==> {
                let sel = greedy(chunks@, self.context_builder.budget()).0;
                cites(#[trigger] r.citations@[k], chunks@[sel[k]], sel[k])
            },
    {
        self.context_builder.build(chunks, query)
    }

    /// Everything after retrieval in an end-to-end call without a language
    /// model: `NoResults` with the query when nothing was retrieved; else the
    /// context of the hits, the prompt, the placeholder answer over the context,
    /// its usage and the citations.
    pub fn answer(&self, request: &RagRequest, retrieved: RetrieveResult, total_latency_ms: u64) -> (r: Result<
        RagResponse,
        RagError,
    >)
        requires
            self.wf(),
        ensures
            retrieved.hits@.len() == 0 ==> (r matches Err(RagError::NoResults(q)) && q@ == request.query@),
            retrieved.hits@.len() > 0 ==> (r matches Ok(resp) && {
                let (sel, used) = greedy(retrieved.hits@, self.context_builder.budget());
                let ctx = context_text(retrieved.hits@, sel, self.context_builder.format());
                let prompt = assembled_prompt(
                    self.prompt_template,
                    request.query@,
                    ctx,
                    match request.system_prompt { Some(s) => Some(s@), None => None },
                    request.history@,
                );
                &&& resp.answer@ == placeholder_text(request.query@, sel.len(), ctx)
                &&& resp.citations@.len() == sel.len()
                &&& forall|k: int| 0 <= k < sel.len() ==>
                    cites(#[trigger] resp.citations@[k], retrieved.hits@[sel[k]], sel[k])
                &&& resp.usage.context_tokens == used
                &&& resp.usage.prompt_tokens == str_len(prompt) / 4
                &&& resp.usage.completion_tokens == str_len(resp.answer@) / 4
                &&& resp.usage.total_tokens == (str_len(prompt) + str_len(resp.answer@)) / 4
                &&& resp.usage.chunks_used == sel.len()
                &&& resp.usage.chunks_dropped == retrieved.hits@.len() - sel.len()
                &&& resp.retrieve_stats.hits@ == retrieved.hits@
                &&& resp.total_latency_ms == total_latency_ms
                &&& resp.model == request.generation.model
            }),
    {
        if retrieved.hits.len() == 0 {
            return Err(RagError::NoResults(request.query.clone()));
        }
        let built = self.context_builder.build(retrieved.hits.as_slice(), request.query.as_str());
        let system = match &request.system_prompt {
            Some(s) => Some(s.as_str()),
            None => None,
        };
        let prompt = assemble_prompt(&self.prompt_template, request.query.as_str(), &built, system,
            request.history.as_slice());
        let answer = placeholder_answer(request.query.as_str(), &built);
        let usage = response_usage(&built, prompt.as_str(), answer.as_str());
        Ok(RagResponse {
            answer,
            citations: built.citations,
            usage,
            retrieve_stats: retrieved,
            total_latency_ms,
            model: request.generation.model.clone(),
        })
    }

    /// The events of a streamed call without a language model: `NoResults` when
    /// nothing was retrieved; else generation-started with the context's chunk
    /// and token counts, one content delta, and done with the citations.
    pub fn stream_events(&self, request: &RagRequest, retrieved: &RetrieveResult) -> (r: Result<
        Vec<RagStreamEvent>,
        RagError,
    >)
        requires
            self.wf(),
        ensures
            retrieved.hits@.len() == 0 ==> (r matches Err(RagError::NoResults(q)) && q@ == request.query@),
            retrieved.hits@.len() > 0 ==> (r matches Ok(events) && {
                let (sel, used) = greedy(retrieved.hits@, self.context_builder.budget());
                &&& events@.len() == 3
                &&& events@[0] matches RagStreamEvent::GenerationStarted { context_chunks, context_tokens }
                    && context_chunks == sel.len() && context_tokens == used
                &&& events@[1] matches RagStreamEvent::ContentDelta { delta }
                    && delta@ == "RAG Response for: '"@ + request.query@ + "'\n\nBased on "@ + decimal(sel.len())
                        + " context chunks"@
                &&& events@[2] matches RagStreamEvent::Done { total_latency_ms, citations, usage }
                    && total_latency_ms == 0 && citations@.len() == sel.len() && usage.context_tokens == used
                    && (forall|k: int| 0 <= k < sel.len() ==>
                        cites(#[trigger] citations@[k], retrieved.hits@[sel[k]], sel[k]))
                    && usage.chunks_used == sel.len() && usage.chunks_dropped == retrieved.hits@.len() - sel.len()
                    && usage.prompt_tokens == 0 && usage.completion_tokens == 0 && usage.total_tokens == 0
            }),
    {
        if retrieved.hits.len() == 0 {
            return Err(RagError::NoResults(request.query.clone()));
        }
        let built = self.context_builder.build(retrieved.hits.as_slice(), request.query.as_str());
        let n = usize_to_decimal(built.chunks_used);
        let mut delta = String::new();
        push_str(&mut delta, "RAG Response for: '");
        push_str(&mut delta, request.query.as_str());
        push_str(&mut delta, "'\n\nBased on ");
        push_str(&mut delta, n.as_str());
        push_str(&mut delta, " context chunks");
        let mut usage = RagTokenUsage::default();
        usage.context_tokens = built.tokens_used;
        usage.chunks_used = built.chunks_used;
        usage.chunks_dropped = built.chunks_dropped;
        let mut events: Vec<RagStreamEvent> = Vec::new();
        events.push(RagStreamEvent::GenerationStarted {
            context_chunks: built.chunks_used,
            context_tokens: built.tokens_used,
        });
        proof {
            assert(delta@ =~= "RAG Response for: '"@ + request.query@ + "'\n\nBased on "@
                + decimal(built.chunks_used as nat) + " context chunks"@);
        }
        events.push(RagStreamEvent::ContentDelta { delta });
        events.push(RagStreamEvent::Done { total_latency_ms: 0, citations: built.citations, usage });
        Ok(events)
    }

    pub fn engine_info(&self) -> (r: &RagEngineInfo)
        ensures
            r == &self.info,
    {
        &self.info
    }
}

/// The query to retrieve with. Without a language model the query is used as
/// it is, whatever preprocessing was asked for.
pub fn preprocess_query(request: &RetrieveRequest) -> (r: Result<String, RagError>)
    ensures
        r matches Ok(q) && q@ == request.query@,
{
    Ok(request.query.clone())
}

/// Query expansion without a language model: the query alone.
#[derive(Debug, Clone, Copy)]
pub struct QueryExpander;

impl QueryExpander {
    pub fn new() -> (r: Self) {
        QueryExpander
    }

    pub fn expand(&self, query: &str, count: usize) -> (r: Result<Vec<String>, RagError>)
        ensures
            r matches Ok(qs) && qs@.len() == 1 && qs@[0]@ == query@,
    {
        let mut v = Vec::new();
        v.push(String::from_str(query));
        Ok(v)
    }
}

impl Default for QueryExpander {
    fn default() -> (r: Self) {
        QueryExpander::new()
    }
}

/// Hypothetical-document expansion without a language model: the query itself.
#[derive(Debug, Clone, Copy)]
pub struct HydeExpander;

impl HydeExpander {
    pub fn new() -> (r: Self) {
        HydeExpander
    }

    pub fn expand(&self, query: &str) -> (r: Result<String, RagError>)
        ensures
            r matches Ok(q) && q@ == query@,
    {
        Ok(String::from_str(query))
    }
}

impl Default for HydeExpander {
    fn default() -> (r: Self) {
        HydeExpander::new()
    }
}

/// The cache used when caching is off: it keeps nothing.
#[derive(Debug, Clone, Copy)]
pub struct NoopCache;

impl NoopCache {
    pub fn new(max_entries: usize, ttl_seconds: u64) -> (r: Self) {
        NoopCache
    }

    pub fn get(&self, key: &str) -> (r: Option<RetrieveResult>)
        ensures
            r is None,
    {
        None
    }

    pub fn set(&self, key: &str, value: RetrieveResult) {
    }

    pub fn invalidate(&self, namespace: &str) {
    }
}

/// Keyword search over an inverted index; this one has no index and finds
/// nothing.
#[derive(Debug, Clone, Copy)]
pub struct Bm25ChannelExecutor {}

impl Bm25ChannelExecutor {
    pub fn new() -> (r: Self) {
        Bm25ChannelExecutor {}
    }

    pub fn execute(
        &self,
        query: &str,
        config: &ChannelConfig,
        global_filters: &[StructuredFilter],
        namespace: Option<&str>,
    ) -> (r: Result<Vec<RetrievedChunk>, RagError>)
        ensures
            r matches Ok(hits) && hits@.len() == 0,
    {
        Ok(Vec::new())
    }
}

impl Default for Bm25ChannelExecutor {
    fn default() -> (r: Self) {
        Bm25ChannelExecutor::new()
    }
}

/// What a channel executor knows of the request.
#[derive(Debug, Clone)]
pub struct ChannelContext {
    pub namespace: Option<String>,
}


/// Which executor serves a channel during retrieval.
#[derive(Debug, Clone, Copy, PartialEq, Eq, Structural)]
pub enum ChannelRoute {
    Semantic,
    Metadata,
    Bm25,
    Graph,
    /// The channel yields no hits.
    Skip,
}

/// The executor for a channel: semantic search needs an embedder and a vector
/// store, metadata search a metadata store, graph search a graph store; keyword
/// search needs nothing; full-text and custom channels, and channels whose
/// services are missing, yield nothing.
pub fn route_channel(channel: &ChannelType, semantic_ready: bool, metadata_ready: bool, graph_ready: bool) -> (r:
    ChannelRoute)
    ensures
        r == match *channel {
            ChannelType::Semantic => if semantic_ready { ChannelRoute::Semantic } else { ChannelRoute::Skip },
            ChannelType::Metadata => if metadata_ready { ChannelRoute::Metadata } else { ChannelRoute::Skip },
            ChannelType::Bm25 => ChannelRoute::Bm25,
            ChannelType::Graph => if graph_ready { ChannelRoute::Graph } else { ChannelRoute::Skip },
            _ => ChannelRoute::Skip,
        },
{
    match channel {
        ChannelType::Semantic => if semantic_ready { ChannelRoute::Semantic } else { ChannelRoute::Skip },
        ChannelType::Metadata => if metadata_ready { ChannelRoute::Metadata } else { ChannelRoute::Skip },
        ChannelType::Bm25 => ChannelRoute::Bm25,
        ChannelType::Graph => if graph_ready { ChannelRoute::Graph } else { ChannelRoute::Skip },
        _ => ChannelRoute::Skip,
    }
}


/// Two citations with the same contents.
pub open spec fn same_citation(a: Citation, b: Citation) -> bool {
    &&& a.index == b.index
    &&& a.chunk_id@ == b.chunk_id@
    &&& a.content@ == b.content@
    &&& (match (a.document_title, b.document_title) {
        (Some(x), Some(y)) => x@ == y@,
        (None, None) => true,
        _ => false,
    })
    &&& a.score_bits == b.score_bits
    &&& a.channel@ == b.channel@
}

/// A field-by-field copy of a list of citations.
pub fn copy_citations(v: &Vec<Citation>) -> (r: Vec<Citation>)
    ensures
        r@.len() == v@.len(),
        forall|i: int| 0 <= i < v@.len() ==> same_citation(#[trigger] r@[i], v@[i]),
{
    let mut r: Vec<Citation> = Vec::new();
    let mut i: usize = 0;
    while i < v.len()
        invariant
            i <= v@.len(),
            r@.len() == i,
            forall|j: int| 0 <= j < i ==> same_citation(#[trigger] r@[j], v@[j]),
        decreases v.len() - i,
    {
        let c = &v[i];
        let title = match &c.document_title {
            Some(t) => Some(t.clone()),
            None => None,
        };
        r.push(Citation {
            index: c.index,
            chunk_id: c.chunk_id.clone(),
            content: c.content.clone(),
            document_title: title,
            score_bits: c.score_bits,
            channel: c.channel.clone(),
        });
        i = i + 1;
    }
    r
}

/// The RAG event for an event of a language model's stream: text passes
/// through, the end of the stream ends the answer with the context's citations
/// and zero usage, and anything else becomes an empty text delta.
pub fn rag_event_of(event: StreamEvent, citations: &Vec<Citation>) -> (r: RagStreamEvent)
    ensures
        match event {
            StreamEvent::ContentDelta { delta } => r == (RagStreamEvent::ContentDelta { delta }),
            StreamEvent::Done { .. } => r matches RagStreamEvent::Done { total_latency_ms, citations: cs, usage } && {
                &&& total_latency_ms == 0
                &&& cs@.len() == citations@.len()
                &&& forall|i: int| 0 <= i < cs@.len() ==> same_citation(#[trigger] cs@[i], citations@[i])
                &&& usage.context_tokens == 0 && usage.prompt_tokens == 0 && usage.completion_tokens == 0
                &&& usage.total_tokens == 0 && usage.chunks_used == 0 && usage.chunks_dropped == 0
            },
            _ => r matches RagStreamEvent::ContentDelta { delta } && delta@.len() == 0,
        },
{
    match event {
        StreamEvent::ContentDelta { delta } => RagStreamEvent::ContentDelta { delta },
        StreamEvent::Done { .. } => RagStreamEvent::Done {
            total_latency_ms: 0,
            citations: copy_citations(citations),
            usage: RagTokenUsage::default(),
        },
        _ => RagStreamEvent::ContentDelta { delta: String::new() },
    }
}

/// A language model's failure as a RAG error: `Provider` with `what`, a colon
/// and the failure's message.
pub fn provider_failure(what: &str, e: &ProviderError) -> (r: RagError)
    ensures
        r matches RagError::Provider(m) && m@ == what@ + ": "@ + spec_error_message(*e),
{
    let mut m = String::from_str(what);
    push_str(&mut m, ": ");
    let msg = e.to_display_string();
    push_str(&mut m, msg.as_str());
    RagError::Provider(m)
}


/// The request that asks a language model to answer a prompt: one user message
/// holding the prompt, the model, temperature and output limit asked for, and
/// nothing else set (an empty request id).
pub fn generation_request(prompt: &str, model: Option<String>, temperature_bits: Option<u32>, max_tokens: Option<
    usize,
>) -> (r: CompletionRequest)
    ensures
        r.model == model,
        r.messages@.len() == 1,
        r.messages@[0] matches Message::User { content: MessageContent::Text(t) } && t@ == prompt@,
        r.temperature_bits == temperature_bits,
        r.max_tokens == max_tokens,
        r.tools is None && r.tool_choice is None && r.response_format is None,
        r.max_completion_tokens is None && r.top_p_bits is None && r.top_k is None && r.stop is None,
        r.frequency_penalty_bits is None && r.presence_penalty_bits is None && r.seed is None,
        r.reasoning_effort is None && r.logprobs is None && r.logit_bias is None,
        r.stream_include_usage is None,
        r.request_id@.len() == 0,
{
    let mut messages: Vec<Message> = Vec::new();
    messages.push(Message::user(prompt));
    CompletionRequest {
        model,
        messages,
        tools: None,
        tool_choice: None,
        response_format: None,
        temperature_bits,
        max_tokens,
        max_completion_tokens: None,
        top_p_bits: None,
        top_k: None,
        stop: None,
        frequency_penalty_bits: None,
        presence_penalty_bits: None,
        seed: None,
        reasoning_effort: None,
        logprobs: None,
        logit_bias: None,
        stream_include_usage: None,
        request_id: String::new(),
    }
}

/// The model a streamed generation asks for: the request's own, else the
/// provider's default, else `default`.
pub fn stream_model(own: &Option<String>, provider_default: Option<&str>) -> (r: String)
    ensures
        r@ == match own {
            Some(m) => m@,
            None => match provider_default {
                Some(d) => d@,
                None => "default"@,
            },
        },
{
    match own {
        Some(m) => m.clone(),
        None => match provider_default {
            Some(d) => String::from_str(d),
            None => String::from_str("default"),
        },
    }
}


/// The number of white-space characters that start `s`.
pub open spec fn lead_ws(s: Seq<char>) -> nat
    decreases s.len(),
{
    if s.len() > 0 && is_white_space(s[0]) { 1 + lead_ws(s.drop_first()) } else { 0 }
}

/// The number of white-space characters that end `s`.
pub open spec fn trail_ws(s: Seq<char>) -> nat
    decreases s.len(),
{
    if s.len() > 0 && is_white_space(s.last()) { 1 + trail_ws(s.drop_last()) } else { 0 }
}

/// `s` without white space at either end (what `str::trim` gives).
pub open spec fn trimmed(s: Seq<char>) -> Seq<char> {
    if lead_ws(s) >= s.len() { Seq::empty() } else { s.subrange(lead_ws(s) as int, s.len() - trail_ws(s)) }
}

proof fn lemma_lead_ws(s: Seq<char>, a: int)
    requires
        0 <= a < s.len(),
        is_white_space(s[a]),
    ensures
        lead_ws(s.skip(a)) == 1 + lead_ws(s.skip(a + 1)),
{
    assert(s.skip(a).drop_first() =~= s.skip(a + 1));
}

proof fn lemma_trail_ws(s: Seq<char>, b: int)
    requires
        0 < b <= s.len(),
        is_white_space(s[b - 1]),
    ensures
        trail_ws(s.take(b)) == 1 + trail_ws(s.take(b - 1)),
{
    assert(s.take(b).drop_last() =~= s.take(b - 1));
}

proof fn lemma_lead_bound(s: Seq<char>)
    ensures
        lead_ws(s) <= s.len(),
        lead_ws(s) < s.len() ==> !is_white_space(s[lead_ws(s) as int]),
        forall|k: int| 0 <= k < lead_ws(s) ==> is_white_space(#[trigger] s[k]),
    decreases s.len(),
{
    if s.len() > 0 && is_white_space(s[0]) {
        lemma_lead_bound(s.drop_first());
        assert forall|k: int| 0 <= k < lead_ws(s) implies is_white_space(#[trigger] s[k]) by {
            if k > 0 {
                assert(s[k] == s.drop_first()[k - 1]);
            }
        }
    }
}

/// Trims white space from both ends of the characters `cs`.
fn trim_chars(cs: &Vec<char>) -> (r: Vec<char>)
    ensures
        r@ == trimmed(cs@),
{
    let ghost s = cs@;
    let mut a: usize = 0;
    proof {
        assert(s.skip(0) =~= s);
    }
    while a < cs.len() && char_is_white_space(cs[a])
        invariant
            a <= s.len(),
            s == cs@,
            lead_ws(s) == a + lead_ws(s.skip(a as int)),
        decreases cs.len() - a,
    {
        proof {
            lemma_lead_ws(s, a as int);
        }
        a = a + 1;
    }
    proof {
        if a < s.len() {
            assert(s.skip(a as int)[0] == s[a as int]);
        } else {
            assert(s.skip(a as int) =~= Seq::<char>::empty());
        }
    }
    if a >= cs.len() {
        return Vec::new();
    }
    let mut b: usize = cs.len();
    proof {
        assert(s.take(b as int) =~= s);
    }
    while b > a + 1 && char_is_white_space(cs[b - 1])
        invariant
            a < b <= s.len(),
            s == cs@,
            trail_ws(s) == (s.len() - b) + trail_ws(s.take(b as int)),
        decreases b,
    {
        proof {
            lemma_trail_ws(s, b as int);
        }
        b = b - 1;
    }
    proof {
        if b == a + 1 {
            assert(!is_white_space(s[a as int]));
        }
        assert(s.take(b as int).last() == s[b - 1]);
        assert(trail_ws(s.take(b as int)) == 0);
    }
    let mut r: Vec<char> = Vec::new();
    let mut k: usize = a;
    while k < b
        invariant
            a <= k <= b <= s.len(),
            s == cs@,
            r@ == s.subrange(a as int, k as int),
        decreases b - k,
    {
        r.push(cs[k]);
        proof {
            assert(s.subrange(a as int, k + 1) =~= s.subrange(a as int, k as int).push(s[k as int]));
        }
        k = k + 1;
    }
    r
}

/// The separator between a variation's number and its text.
pub open spec fn number_marker() -> Seq<char> {
    seq!['.', ' ']
}

/// What follows the first `. ` in `t`, or all of `t` when there is none (the
/// last piece of `splitn(2, ". ")`).
pub open spec fn after_marker(t: Seq<char>) -> Seq<char> {
    let k = find_from(t, number_marker(), 0);
    if k >= 0 { t.skip(k + 2) } else { t }
}

fn after_marker_chars(t: &Vec<char>) -> (r: Vec<char>)
    ensures
        r@ == after_marker(t@),
{
    let mut marker: Vec<char> = Vec::new();
    marker.push('.');
    marker.push(' ');
    proof {
        assert(marker@ =~= number_marker());
    }
    let mut k: usize = 0;
    while t.len() >= 2 && k <= t.len() - 2
        invariant
            marker@ == number_marker(),
            k <= t@.len(),
            find_from(t@, number_marker(), 0) == find_from(t@, number_marker(), k as int),
        decreases t.len() - k,
    {
        if matches_at(t.as_slice(), marker.as_slice(), k) {
            let mut r: Vec<char> = Vec::new();
            let mut j: usize = k + 2;
            while j < t.len()
                invariant
                    k + 2 <= j <= t@.len(),
                    r@ == t@.subrange(k + 2, j as int),
                decreases t.len() - j,
            {
                r.push(t[j]);
                proof {
                    assert(t@.subrange(k + 2, j + 1) =~= t@.subrange(k + 2, j as int).push(t@[j as int]));
                }
                j = j + 1;
            }
            proof {
                assert(t@.subrange(k + 2, t@.len() as int) =~= t@.skip(k + 2));
            }
            return r;
        }
        k = k + 1;
    }
    proof {
        assert(find_from(t@, number_marker(), k as int) == -1);
    }
    let mut r: Vec<char> = Vec::new();
    let mut j: usize = 0;
    while j < t.len()
        invariant
            j <= t@.len(),
            r@ == t@.take(j as int),
        decreases t.len() - j,
    {
        r.push(t[j]);
        proof {
            assert(t@.take(j + 1) =~= t@.take(j as int).push(t@[j as int]));
        }
        j = j + 1;
    }
    proof {
        assert(t@.take(t@.len() as int) =~= t@);
    }
    r
}

/// The variation a reply line gives: its trimmed text after the number marker;
/// nothing for a blank line.
pub open spec fn expansion_pick(line: Seq<char>) -> Option<Seq<char>> {
    if trimmed(line).len() == 0 { None } else { Some(after_marker(trimmed(line))) }
}

/// The variations of the reply lines, in order.
pub open spec fn expansion_picks(lines: Seq<Seq<char>>) -> Seq<Seq<char>>
    decreases lines.len(),
{
    if lines.len() == 0 {
        Seq::empty()
    } else {
        expansion_picks(lines.drop_last()) + match expansion_pick(lines.last()) {
            Some(q) => seq![q],
            None => Seq::empty(),
        }
    }
}

proof fn lemma_picks_concat(a: Seq<Seq<char>>, b: Seq<Seq<char>>)
    ensures
        expansion_picks(a + b) == expansion_picks(a) + expansion_picks(b),
    decreases b.len(),
{
    if b.len() == 0 {
        assert(a + b =~= a);
        assert(expansion_picks(a) + expansion_picks(b) =~= expansion_picks(a));
    } else {
        lemma_picks_concat(a, b.drop_last());
        assert((a + b).drop_last() =~= a + b.drop_last());
        let t = match expansion_pick(b.last()) { Some(q) => seq![q], None => Seq::<Seq<char>>::empty() };
        assert(expansion_picks(a) + expansion_picks(b.drop_last()) + t =~= expansion_picks(a) + (expansion_picks(b.drop_last()) + t));
    }
}

/// How many variations a reply may give for `count` asked: `count`, but at least one.
pub open spec fn expansion_limit(count: nat) -> nat {
    if count == 0 { 1 } else { count }
}

/// The queries of an expansion: the original, then the variations of the
/// reply's lines in order, as many as the limit allows.
pub open spec fn expanded_queries(query: Seq<char>, reply: Seq<char>, count: nat) -> Seq<Seq<char>> {
    let picks = expansion_picks(text_lines(reply));
    let n = if picks.len() < expansion_limit(count) { picks.len() } else { expansion_limit(count) };
    seq![query] + picks.take(n as int)
}

/// Reads a language model's reply to the expansion prompt: the original query,
/// then one variation per non-blank line (trimmed, its `1. ` numbering removed),
/// stopping once `count` variations (at least one) are collected.
pub fn parse_expansions(query: &str, reply: &str, count: usize) -> (r: Vec<String>)
    ensures
        r@.map_values(|q: String| q@) == expanded_queries(query@, reply@, count as nat),
{
    let limit: usize = if count == 0 { 1 } else { count };
    let lines = lines_of(reply);
    let ghost ls = lines@.map_values(|l: String| l@);
    let mut out: Vec<String> = Vec::new();
    out.push(String::from_str(query));
    let mut i: usize = 0;
    while i < lines.len() && out.len() <= limit
        invariant
            i <= lines@.len(),
            ls == lines@.map_values(|l: String| l@),
            ls == text_lines(reply@),
            limit == expansion_limit(count as nat),
            out@.map_values(|q: String| q@) == seq![query@] + expansion_picks(ls.take(i as int)),
            expansion_picks(ls.take(i as int)).len() <= limit,
        decreases lines.len() - i,
    {
        proof {
            assert(ls.take(i + 1).drop_last() =~= ls.take(i as int));
            assert(ls.take(i + 1).last() == lines@[i as int]@);
        }
        let cs = chars_of(lines[i].as_str());
        let t = trim_chars(&cs);
        let ghost before = out@;
        if t.len() > 0 {
            let q = after_marker_chars(&t);
            let qs = string_from_chars(q.as_slice(), 0, q.len());
            proof {
                assert(q@.subrange(0, q@.len() as int) =~= q@);
            }
            out.push(qs);
            proof {
                assert(out@.map_values(|q: String| q@) =~= before.map_values(|q: String| q@).push(qs@));
                assert(seq![query@] + expansion_picks(ls.take(i + 1)) =~= (seq![query@] + expansion_picks(
                    ls.take(i as int),
                )).push(qs@));
            }
        } else {
            proof {
                assert(expansion_picks(ls.take(i + 1)) =~= expansion_picks(ls.take(i as int)));
            }
        }
        i = i + 1;
    }
    proof {
        let p = expansion_picks(ls.take(i as int));
        lemma_picks_concat(ls.take(i as int), ls.skip(i as int));
        assert(ls.take(i as int) + ls.skip(i as int) =~= ls);
        let all = expansion_picks(ls);
        assert(all.take(p.len() as int) =~= p);
        if i == ls.len() {
            assert(ls.take(i as int) =~= ls);
        }
    }
    out
}

/// The prompt that asks a language model for `count` rewordings of `query`.
pub fn expansion_prompt(query: &str, count: usize) -> (r: String)
    ensures
        r@ == "Generate "@ + decimal(count as nat) + " different ways to express the following search query:\n\nOriginal: "@
            + query@ + "\n\nVariations:\n1."@,
{
    let n = usize_to_decimal(count);
    let mut r = String::from_str("Generate ");
    push_str(&mut r, n.as_str());
    push_str(&mut r, " different ways to express the following search query:\n\nOriginal: ");
    push_str(&mut r, query);
    push_str(&mut r, "\n\nVariations:\n1.");
    r
}

} // verus!
