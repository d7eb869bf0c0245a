use xz_modules::rag::context::{
    extract_citation_indices, format_citations_numeric, parse_usize, Citation, CitationFormat, ContextBuilder,
};
use xz_modules::rag::engine::{build_cache_key, placeholder_answer, response_usage, assemble_prompt, EngineCore};
use xz_modules::rag::pipeline::{ChannelConfig, ChannelPipeline, ChannelType};
use xz_modules::rag::request::{ChatMessage, ChatRole, PromptTemplate, RagRequest};
use xz_modules::rag::retrieval::{RetrieveResult, RetrievedChunk};
use xz_modules::rag::types::ChunkMetadata;
use xz_modules::rag::error::RagError;

fn make_hit(id: &str, content: &str, score: f32) -> RetrievedChunk {
    RetrievedChunk {
        chunk_id: id.to_string(),
        document_id: format!("doc_{}", id),
        content: content.to_string(),
        score_bits: score.to_bits(),
        channel: "semantic".to_string(),
        channel_score_bits: score.to_bits(),
        metadata: ChunkMetadata::default(),
        embedding_bits: None,
    }
}

#[test]
fn test_context_budget_enforcement() {
    let builder = ContextBuilder::new(2000).with_reserves(200, 100, 300);

    let budget = builder.context_budget();
    assert_eq!(budget, 1400);

    let long = "x".repeat(10000);
    let chunks = vec![make_hit("c1", &long, 0.9)];

    let built = builder.build(&chunks, "test");
    assert_eq!(built.chunks_used, 0);
    assert_eq!(built.chunks_dropped, 1);
}

#[test]
fn test_context_build_fits() {
    let builder = ContextBuilder::new(10000);
    let chunks = vec![make_hit("c1", "Short content A", 0.9), make_hit("c2", "Short content B", 0.8)];

    let built = builder.build(&chunks, "test");
    assert_eq!(built.chunks_used, 2);
    assert_eq!(built.citations.len(), 2);
    assert!(built.context_text.contains("[1]"));
    assert!(built.context_text.contains("[2]"));
}

#[test]
fn test_context_builder() {
    let builder = ContextBuilder::new(4096);
    let budget = builder.context_budget();
    assert!(budget > 0);
}

#[test]
fn context_greedy_skips_and_continues() {
    // budget 10 tokens = 40 bytes; 48 bytes is 12 tokens
    let builder = ContextBuilder::new(10).with_reserves(0, 0, 0);
    let hits = vec![
        make_hit("a", &"a".repeat(16), 0.9), // 4 tokens
        make_hit("b", &"b".repeat(48), 0.8), // 12 tokens: skipped
        make_hit("c", &"c".repeat(24), 0.7), // 6 tokens: fits exactly
        make_hit("d", "dddd", 0.6),          // 1 token: over
    ];
    let built = builder.build(&hits, "q");
    assert_eq!(built.chunks_used, 2);
    assert_eq!(built.chunks_dropped, 2);
    assert_eq!(built.tokens_used, 10);
    assert_eq!(built.citations[0].index, 1);
    assert_eq!(built.citations[1].index, 3);
    assert_eq!(built.citations[1].chunk_id, "c");
    assert_eq!(built.context_text, format!("[1] {}\n[3] {}\n", "a".repeat(16), "c".repeat(24)));
    // reserves larger than the total leave nothing
    assert_eq!(ContextBuilder::new(100).context_budget(), 0);
}

#[test]
fn context_formats() {
    let mut titled = make_hit("id2", "two", 0.5);
    titled.metadata.document_title = Some("Doc".into());
    let hits = vec![make_hit("id1", "one", 0.9), titled];
    let by_id = ContextBuilder::new(5000).with_citation_format(CitationFormat::ChunkId).build(&hits, "q");
    assert_eq!(by_id.context_text, "(id1) one\n(id2) two\n");
    let by_source = ContextBuilder::new(5000).with_citation_format(CitationFormat::SourceName).build(&hits, "q");
    assert_eq!(by_source.context_text, "@id1: one\n@Doc: two\n");
    assert_eq!(by_source.citations[1].document_title.as_deref(), Some("Doc"));
    assert_eq!(f32::from_bits(by_source.citations[0].score_bits), 0.9);
}

#[test]
fn citations_numeric_list() {
    let long = "y".repeat(120);
    let cs = vec![
        Citation { index: 1, chunk_id: "a".into(), content: "short".into(), document_title: None, score_bits: 0, channel: "s".into() },
        Citation { index: 7, chunk_id: "b".into(), content: long.clone(), document_title: None, score_bits: 0, channel: "s".into() },
    ];
    assert_eq!(format_citations_numeric(&cs), format!("[1] short\n[7] {}...", "y".repeat(100)));
    assert_eq!(format_citations_numeric(&[]), "");
    // 100 characters but more than 100 bytes: all characters kept, and the ellipsis
    let wide = Citation { index: 2, chunk_id: "w".into(), content: "é".repeat(100), document_title: None, score_bits: 0, channel: "s".into() };
    assert_eq!(format_citations_numeric(&[wide]), format!("[2] {}...", "é".repeat(100)));
}

#[test]
fn citation_indices_extracted() {
    assert_eq!(extract_citation_indices("See [1] and [23], not [x] or [1,2] or [[4]."), vec![1, 23]);
    assert_eq!(extract_citation_indices("[5][6]"), vec![5, 6]);
    assert!(extract_citation_indices("no citations").is_empty());
    assert!(extract_citation_indices("[]").is_empty());
    // a value past usize::MAX does not parse
    assert!(extract_citation_indices("[99999999999999999999999]").is_empty());
    assert_eq!(parse_usize(&['4', '2']), Some(42));
    assert_eq!(parse_usize(&[]), None);
    assert_eq!(parse_usize(&['1', ',']), None);
}

#[test]
fn test_prompt_template_render() {
    let template = PromptTemplate::default_qa();
    let rendered = template.render("What is Rust?", "Rust is a systems programming language.");
    assert!(rendered.contains("What is Rust?"));
    assert!(rendered.contains("Rust is a systems programming language"));
}

#[test]
fn render_exact() {
    let template = PromptTemplate::default_qa();
    assert_eq!(template.render("Q", "C"), "Question: Q\n\nContext:\nC\n\nAnswer:");
}

#[test]
fn cache_keys() {
    assert_eq!(build_cache_key("q", &Some("ns".into())), "rag:ns:q");
    assert_eq!(build_cache_key("q", &None), "rag:default:q");
}

#[test]
fn prompt_assembly_with_and_without_history() {
    let template = PromptTemplate::default_qa();
    let built = ContextBuilder::new(5000).build(&[make_hit("c", "fact", 1.0)], "q");
    let plain = assemble_prompt(&template, "q?", &built, None, &[]);
    assert_eq!(
        plain,
        format!("{}\n\nQuestion: q?\n\nContext:\nRelevant information:\n[1] fact\n\n\n\nAnswer:", template.system)
    );
    let history = vec![
        ChatMessage { role: ChatRole::User, content: "hi".into() },
        ChatMessage { role: ChatRole::Assistant, content: "hello".into() },
    ];
    let with_history = assemble_prompt(&template, "q?", &built, Some("SYS"), &history);
    assert_eq!(
        with_history,
        "SYS\n\nPrevious conversation:\nUser: hi\nAssistant: hello\n\n\nContext:\nRelevant information:\n[1] fact\n\n\n\nQuestion: q?"
    );
    let answer = placeholder_answer("q?", &built);
    assert_eq!(answer, "RAG Response for: 'q?'\n\nBased on 1 context chunks:\n[1] fact\n");
    let usage = response_usage(&built, "abcdefgh", "abcdefg");
    assert_eq!((usage.prompt_tokens, usage.completion_tokens, usage.total_tokens), (2, 1, 3));
}

fn empty_result() -> RetrieveResult {
    RetrieveResult { hits: vec![], channel_report: vec![], latency_ms: 0, effective_query: String::new() }
}

#[test]
fn engine_core_answers() {
    let core = EngineCore::from_parts(Some("test-engine".into()), Some("0.1.0".into()),
        Some(ChannelPipeline::new(vec![ChannelConfig::semantic(0.5f32.to_bits(), 10)])), None, None, true);
    assert_eq!(core.info.name, "test-engine");
    assert_eq!(core.info.supported_channels, vec!["semantic".to_string(), "graph".to_string()]);
    assert_eq!(core.info.max_context_window, 4096);
    let request = RagRequest::builder("test query".into()).build();
    let err = core.answer(&request, empty_result(), 0).unwrap_err();
    assert!(matches!(err, RagError::NoResults(q) if q == "test query"));
    let mut result = empty_result();
    result.hits.push(make_hit("c1", "body", 0.5));
    let resp = core.answer(&request, result, 9).unwrap();
    assert_eq!(resp.citations.len(), 1);
    assert!(resp.answer.starts_with("RAG Response for: 'test query'"));
    assert_eq!(resp.total_latency_ms, 9);
    let defaults = EngineCore::from_parts(None, None, None, Some(ContextBuilder::new(1000)), None, false);
    assert_eq!(defaults.info.name, "default");
    assert_eq!(defaults.info.version, "0.1.0");
    assert_eq!(defaults.pipeline.channels.len(), 2);
    assert_eq!(defaults.pipeline.channels[1].channel_type, ChannelType::Metadata);
    assert_eq!(defaults.info.max_context_window, 104);
    assert_eq!(defaults.info.supported_channels, vec!["semantic".to_string(), "metadata".to_string()]);
}
