use xz_modules::rag::config::{ChannelSection, ChunkingSection, RagConfig};
use xz_modules::rag::engine::{
    expansion_prompt, generation_request, parse_expansions, provider_failure, rag_event_of, route_channel,
    stream_model, Bm25ChannelExecutor, ChannelRoute, HydeExpander, NoopCache,
    QueryExpander,
};
use xz_modules::rag::context::Citation;
use xz_modules::rag::request::RagStreamEvent;
use xz_modules::provider::error::ProviderError;
use xz_modules::provider::message::{FinishReason, Message, MessageContent, StreamEvent};
use xz_modules::rag::error::RagError;
use xz_modules::rag::pipeline::{ChannelConfig, ChannelPipeline, ChannelType};
use xz_modules::rag::request::{RagGenerationConfig, RagRequest};
use xz_modules::rag::retrieval::{QueryPreprocessing, RetrieveRequest, StructuredFilter};
use xz_modules::rag::types::{chunk_metadata_to_map, ChunkMetadata};

#[test]
fn test_structured_filter() {
    let filter = StructuredFilter::MetadataEq { key: "author".to_string(), value: "Alice".to_string() };

    match &filter {
        StructuredFilter::MetadataEq { key, value } => {
            assert_eq!(key, "author");
            assert_eq!(value, "Alice");
        }
        _ => panic!("expected MetadataEq"),
    }
}

#[test]
fn test_query_preprocessing() {
    let pp = QueryPreprocessing::QueryExpansion { count: 3 };
    match pp {
        QueryPreprocessing::QueryExpansion { count } => assert_eq!(count, 3),
        _ => panic!("expected QueryExpansion"),
    }
}

#[test]
fn test_retrieve_request_builder() {
    let request = RetrieveRequest::builder("test query".to_string()).top_k(5).namespace("my-ns".to_string()).build();

    assert_eq!(request.query, "test query");
    assert_eq!(request.top_k, 5);
    assert_eq!(request.namespace, Some("my-ns".to_string()));
}

#[test]
fn test_channel_pipeline() {
    let pipeline = ChannelPipeline::new(vec![
        ChannelConfig::semantic(0.5f32.to_bits(), 10).with_min_score(0.1f32.to_bits()),
        ChannelConfig::metadata(0.3f32.to_bits(), 5),
    ])
    .with_rrf_k(60)
    .with_normalize(true);

    assert_eq!(pipeline.channels.len(), 2);
    assert_eq!(pipeline.rrf_k, 60);
    assert!(pipeline.normalize_scores);
}

#[test]
fn channel_params_replace_by_key() {
    let c = ChannelConfig::new(ChannelType::Custom("kg".into()), 1.0f32.to_bits(), 3)
        .with_param("a".into(), serde_json::Value::from(1))
        .with_param("b".into(), serde_json::Value::from(2))
        .with_param("a".into(), serde_json::Value::from(3));
    assert_eq!(c.params.len(), 2);
    assert_eq!(c.params[0].0, "a");
    assert_eq!(c.params[0].1, serde_json::Value::from(3));
    assert_eq!(c.channel_type.as_str(), "kg");
    assert_eq!(ChannelType::FullText.as_str(), "fulltext");
}

#[test]
fn default_requests_and_sections() {
    let b = RetrieveRequest::builder("q".into()).build();
    assert_eq!(b.top_k, 10);
    assert_eq!(b.channels.len(), 1);
    assert_eq!(f32::from_bits(b.channels[0].weight_bits), 0.5);
    let r = RagRequest::builder("q".into()).system_prompt("s".into()).build();
    assert_eq!(r.system_prompt.as_deref(), Some("s"));
    assert_eq!(r.retrieve_config.query, "");
    let g = RagGenerationConfig::default();
    assert_eq!(g.temperature_bits.map(f32::from_bits), Some(0.7));
    let cfg = RagConfig::default();
    assert_eq!(cfg.context.separator, "\n---\n");
    let ch = ChannelSection::default();
    assert_eq!(ch.metadata.unwrap().weight_bits, 0.2f32.to_bits());
    assert_eq!(ch.semantic.unwrap().min_score_bits, Some(0.1f32.to_bits()));
    assert_eq!(ChunkingSection::default().recursive.unwrap().separators.len(), 4);
}

#[test]
fn components_without_services() {
    assert_eq!(QueryExpander::new().expand("q", 3).unwrap(), vec!["q".to_string()]);
    assert_eq!(HydeExpander::default().expand("q").unwrap(), "q");
    let cache = NoopCache::new(10, 60);
    assert!(cache.get("k").is_none());
    let hits = Bm25ChannelExecutor::new().execute("q", &ChannelConfig::semantic(0, 1), &[], None).unwrap();
    assert!(hits.is_empty());
}

#[test]
fn rag_error_messages() {
    assert!(RagError::Retrieve("x".into()).is_retryable());
    assert!(RagError::Generation("x".into()).is_retryable());
    assert!(RagError::Store("x".into()).is_retryable());
    assert!(!RagError::NoResults("x".into()).is_retryable());
    assert_eq!(RagError::ContextOverflow { used: 5, max: 4 }.to_display_string(), "Context overflow: 5/4 tokens");
    assert_eq!(RagError::NoResults("q".into()).to_display_string(), "No results found for query: q");
}

fn lookup<'a>(map: &'a [(String, String)], key: &str) -> Option<&'a str> {
    map.iter().rev().find(|(k, _)| k == key).map(|(_, v)| v.as_str())
}

#[test]
fn metadata_map_fields_override_extra() {
    let mut meta = ChunkMetadata::default();
    meta.source = Some("wiki".to_string());
    meta.author = Some("Alice".to_string());
    meta.created_at = Some(1700000000123);
    meta.tags = vec!["rust".to_string(), "async".to_string(), "db".to_string()];
    meta.extra = vec![
        ("lang".to_string(), "en".to_string()),
        ("source".to_string(), "old".to_string()),
    ];
    let map = chunk_metadata_to_map(&meta, "doc-7");
    assert_eq!(map.len(), 6);
    assert_eq!(lookup(&map, "lang"), Some("en"));
    assert_eq!(lookup(&map, "source"), Some("wiki"));
    assert_eq!(map.iter().filter(|(k, _)| k == "source").count(), 1);
    assert_eq!(lookup(&map, "document_id"), Some("doc-7"));
    assert_eq!(lookup(&map, "author"), Some("Alice"));
    assert_eq!(lookup(&map, "created_at"), Some("1700000000123"));
    assert_eq!(lookup(&map, "tags"), Some("rust,async,db"));
    assert_eq!(lookup(&map, "namespace"), None);
    assert_eq!(lookup(&map, "document_title"), None);
}

#[test]
fn metadata_map_of_empty_metadata() {
    let map = chunk_metadata_to_map(&ChunkMetadata::default(), "d");
    assert_eq!(map, vec![("document_id".to_string(), "d".to_string())]);
}

#[test]
fn channels_route_to_configured_services() {
    assert_eq!(route_channel(&ChannelType::Semantic, true, false, false), ChannelRoute::Semantic);
    assert_eq!(route_channel(&ChannelType::Semantic, false, true, true), ChannelRoute::Skip);
    assert_eq!(route_channel(&ChannelType::Metadata, false, true, false), ChannelRoute::Metadata);
    assert_eq!(route_channel(&ChannelType::Metadata, true, false, true), ChannelRoute::Skip);
    assert_eq!(route_channel(&ChannelType::Bm25, false, false, false), ChannelRoute::Bm25);
    assert_eq!(route_channel(&ChannelType::Graph, false, false, true), ChannelRoute::Graph);
    assert_eq!(route_channel(&ChannelType::Graph, true, true, false), ChannelRoute::Skip);
    assert_eq!(route_channel(&ChannelType::FullText, true, true, true), ChannelRoute::Skip);
    assert_eq!(route_channel(&ChannelType::Custom("x".to_string()), true, true, true), ChannelRoute::Skip);
}

#[test]
fn model_stream_events_become_rag_events() {
    let cites = vec![Citation {
        index: 1,
        chunk_id: "c1".to_string(),
        content: "text".to_string(),
        document_title: Some("T".to_string()),
        score_bits: 7,
        channel: "semantic".to_string(),
    }];
    match rag_event_of(StreamEvent::ContentDelta { delta: "Hel".to_string() }, &cites) {
        RagStreamEvent::ContentDelta { delta } => assert_eq!(delta, "Hel"),
        other => panic!("unexpected {:?}", other),
    }
    match rag_event_of(StreamEvent::Done { finish_reason: FinishReason::Stop, usage: None }, &cites) {
        RagStreamEvent::Done { total_latency_ms, citations, usage } => {
            assert_eq!(total_latency_ms, 0);
            assert_eq!(citations.len(), 1);
            assert_eq!(citations[0].chunk_id, "c1");
            assert_eq!(citations[0].document_title.as_deref(), Some("T"));
            assert_eq!(usage.total_tokens, 0);
        }
        other => panic!("unexpected {:?}", other),
    }
    match rag_event_of(StreamEvent::ThinkingDelta { delta: "hmm".to_string() }, &cites) {
        RagStreamEvent::ContentDelta { delta } => assert_eq!(delta, ""),
        other => panic!("unexpected {:?}", other),
    }
}

#[test]
fn provider_failures_are_prefixed() {
    let e = provider_failure("Stream error", &ProviderError::Auth("bad key".to_string()));
    match e {
        RagError::Provider(m) => assert_eq!(m, "Stream error: 认证失败: bad key"),
        other => panic!("unexpected {:?}", other),
    }
}

#[test]
fn generation_requests_carry_the_prompt() {
    let r = generation_request("Q?", Some("m1".to_string()), Some(0x3F00_0000), Some(256));
    assert_eq!(r.model.as_deref(), Some("m1"));
    assert_eq!(r.messages.len(), 1);
    match &r.messages[0] {
        Message::User { content: MessageContent::Text(t) } => assert_eq!(t, "Q?"),
        other => panic!("unexpected {:?}", other),
    }
    assert_eq!(r.temperature_bits, Some(0x3F00_0000));
    assert_eq!(r.max_tokens, Some(256));
    assert!(r.tools.is_none() && r.stop.is_none());
    assert_eq!(r.request_id, "");
    assert_eq!(stream_model(&Some("own".to_string()), Some("dflt")), "own");
    assert_eq!(stream_model(&None, Some("dflt")), "dflt");
    assert_eq!(stream_model(&None, None), "default");
}

#[test]
fn filter_clone_copies_the_tree() {
    let f = StructuredFilter::And(
        Box::new(StructuredFilter::MetadataIn { key: "lang".to_string(), values: vec!["en".to_string(), "de".to_string()] }),
        Box::new(StructuredFilter::SqlFilter("a > 1".to_string())),
    );
    match f.clone() {
        StructuredFilter::And(a, b) => {
            assert!(matches!(*a, StructuredFilter::MetadataIn { ref key, ref values } if key == "lang" && values == &vec!["en".to_string(), "de".to_string()]));
            assert!(matches!(*b, StructuredFilter::SqlFilter(ref s) if s == "a > 1"));
        }
        other => panic!("unexpected {:?}", other),
    }
}

#[test]
fn expansion_replies_are_read_line_by_line() {
    let reply = " first way\n\n2. second. way \n  3. third\nfourth\n";
    assert_eq!(parse_expansions("q", reply, 2), vec!["q", "first way", "second. way"]);
    assert_eq!(parse_expansions("q", reply, 10), vec!["q", "first way", "second. way", "third", "fourth"]);
    assert_eq!(parse_expansions("q", reply, 0), vec!["q", "first way"]);
    assert_eq!(parse_expansions("q", "", 3), vec!["q"]);
    assert_eq!(
        expansion_prompt("rust async", 3),
        "Generate 3 different ways to express the following search query:\n\nOriginal: rust async\n\nVariations:\n1."
    );
}
