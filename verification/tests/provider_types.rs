use xz_modules::provider::config::{
    FallbackCondition, ModelConfig, ProviderConfig, ProviderDefinition, ProviderType, RouteRule,
};
use xz_modules::provider::message::{
    CompletionResponse, ContentPart, FinishReason, Message, MessageContent, StreamEvent, TokenUsage,
};
use xz_modules::provider::model_info::{
    CapabilityRequest, ModelCapabilities, ModelInfo, ModelLimits, ModelPricing,
};
use xz_modules::provider::observability::TokenStats;
use xz_modules::provider::request::{CompletionRequest, RequestOptions};
use xz_modules::provider::setup::{env_references_in, interpolate_env};

#[test]
fn test_fallback_condition_default() {
    let cond: FallbackCondition = Default::default();
    assert!(matches!(cond, FallbackCondition::Always));
}

#[test]
fn test_token_stats_new() {
    let stats = TokenStats::new();
    assert_eq!(stats.prompt_tokens, 0);
    assert_eq!(stats.completion_tokens, 0);
    assert_eq!(stats.total_requests, 0);
}

#[test]
fn test_token_stats_default() {
    let stats = TokenStats::default();
    assert_eq!(stats.prompt_tokens, 0);
    assert_eq!(stats.completion_tokens, 0);
    assert_eq!(stats.total_requests, 0);
}

#[test]
fn test_token_stats_record() {
    let mut stats = TokenStats::new();
    stats.record(&TokenUsage { prompt_tokens: 10, completion_tokens: 20, ..Default::default() });
    assert_eq!(stats.prompt_tokens, 10);
    assert_eq!(stats.completion_tokens, 20);
    assert_eq!(stats.total_requests, 1);
}

#[test]
fn test_token_stats_record_cumulative() {
    let mut stats = TokenStats::new();
    for _ in 0..3 {
        stats.record(&TokenUsage { prompt_tokens: 100, completion_tokens: 50, ..Default::default() });
    }
    assert_eq!(stats.prompt_tokens, 300);
    assert_eq!(stats.completion_tokens, 150);
    assert_eq!(stats.total_requests, 3);
}

#[test]
fn test_message_content_from_string() {
    let content: MessageContent = "hello".to_string().into();
    assert!(matches!(content, MessageContent::Text(_)));
}

#[test]
fn test_message_content_from_str() {
    let content: MessageContent = "hello".into();
    assert!(matches!(content, MessageContent::Text(_)));
}

#[test]
fn test_message_content_from_vec_parts() {
    let parts = vec![ContentPart::Text { text: "hello".into() }];
    let content: MessageContent = parts.into();
    assert!(matches!(content, MessageContent::MultiPart(_)));
}

#[test]
fn test_system_message() {
    let msg = Message::system("You are a helpful assistant.");
    assert_eq!(msg.role_str(), "system");
    match msg {
        Message::System { content, cache_control } => {
            assert!(matches!(content, MessageContent::Text(_)));
            assert!(cache_control.is_none());
        }
        _ => panic!("Expected System variant"),
    }
}

#[test]
fn test_user_message() {
    let msg = Message::user("Hello!");
    assert_eq!(msg.role_str(), "user");
    match msg {
        Message::User { content } => {
            assert!(matches!(content, MessageContent::Text(_)));
        }
        _ => panic!("Expected User variant"),
    }
}

#[test]
fn test_assistant_message() {
    let msg = Message::assistant("Hi!");
    assert_eq!(msg.role_str(), "assistant");
    match msg {
        Message::Assistant { content, tool_calls, cache_control } => {
            assert!(matches!(content, MessageContent::Text(_)));
            assert!(tool_calls.is_none());
            assert!(cache_control.is_none());
        }
        _ => panic!("Expected Assistant variant"),
    }
}

#[test]
fn test_tool_result() {
    let msg = Message::tool_result("call_1", "result data");
    assert_eq!(msg.role_str(), "tool");
    match msg {
        Message::Tool { content, tool_call_id, is_error } => {
            assert!(matches!(content, MessageContent::Text(_)));
            assert_eq!(tool_call_id, "call_1");
            assert!(!is_error);
        }
        _ => panic!("Expected Tool variant"),
    }
}

#[test]
fn test_tool_error() {
    let msg = Message::tool_error("call_1", "error!");
    match msg {
        Message::Tool { ref tool_call_id, is_error, .. } => {
            assert!(is_error);
            assert_eq!(tool_call_id, "call_1");
        }
        _ => panic!("Expected Tool variant"),
    }
}

#[test]
fn test_role_str_all_variants() {
    assert_eq!(Message::system("a").role_str(), "system");
    assert_eq!(Message::user("a").role_str(), "user");
    assert_eq!(Message::assistant("a").role_str(), "assistant");
    assert_eq!(Message::tool_result("1", "a").role_str(), "tool");
}

#[test]
fn test_message_display_text() {
    let msg = Message::user("Hello!");
    assert_eq!(msg.to_display_string(), "Hello!");
}

#[test]
fn test_message_display_multipart() {
    let parts = vec![
        ContentPart::Text { text: "Check ".into() },
        ContentPart::ImageUrl { url: "https://example.com/img.png".into(), detail: None },
    ];
    let content = MessageContent::MultiPart(parts);
    let msg = Message::User { content };
    assert_eq!(msg.to_display_string(), "Check [Image]");
}

#[test]
fn test_message_display_none() {
    let msg = Message::Assistant { content: MessageContent::Empty, tool_calls: None, cache_control: None };
    assert_eq!(msg.to_display_string(), "");
}

#[test]
fn test_content_part_image_base64_display() {
    let part = ContentPart::ImageBase64 { media_type: "image/png".into(), data: "base64data".into() };
    let msg = Message::User { content: MessageContent::MultiPart(vec![part]) };
    assert_eq!(msg.to_display_string(), "[Image(base64)]");
}

fn make_model(name: &str, tool_calling: bool, vision: bool, ctx: usize, max_out: usize) -> ModelInfo {
    ModelInfo {
        name: name.into(),
        display_name: None,
        provider: None,
        capabilities: ModelCapabilities {
            context_window: ctx,
            max_output_tokens: max_out,
            supports_tool_calling: tool_calling,
            supports_vision: vision,
            ..Default::default()
        },
        pricing: ModelPricing::default(),
        limits: ModelLimits::default(),
    }
}

#[test]
fn test_satisfies_empty_requirements() {
    let model = make_model("test", false, false, 4096, 2048);
    assert!(model.satisfies(&CapabilityRequest::default()));
}

#[test]
fn test_satisfies_tool_calling() {
    let model = make_model("test", true, false, 4096, 2048);
    let req = CapabilityRequest { tool_calling: true, ..Default::default() };
    assert!(model.satisfies(&req));
}

#[test]
fn test_satisfies_missing_tool_calling() {
    let model = make_model("test", false, false, 4096, 2048);
    let req = CapabilityRequest { tool_calling: true, ..Default::default() };
    assert!(!model.satisfies(&req));
}

#[test]
fn test_satisfies_vision() {
    let model = make_model("test", false, true, 4096, 2048);
    let req = CapabilityRequest { vision: true, ..Default::default() };
    assert!(model.satisfies(&req));
}

#[test]
fn test_satisfies_missing_vision() {
    let model = make_model("test", false, false, 4096, 2048);
    let req = CapabilityRequest { vision: true, ..Default::default() };
    assert!(!model.satisfies(&req));
}

#[test]
fn test_satisfies_structured_output() {
    let model = make_model("test", false, false, 4096, 2048);
    let mut req = CapabilityRequest::default();
    req.structured_output = false;
    assert!(model.satisfies(&req));
    req.structured_output = true;
    assert!(!model.satisfies(&req));
}

#[test]
fn test_satisfies_thinking() {
    let model = make_model("test", false, false, 4096, 2048);
    let mut req = CapabilityRequest::default();
    req.thinking = true;
    assert!(!model.satisfies(&req));
}

#[test]
fn test_satisfies_min_context_window() {
    let model = make_model("test", false, false, 8000, 2048);
    let req = CapabilityRequest { min_context_window: Some(4000), ..Default::default() };
    assert!(model.satisfies(&req));
}

#[test]
fn test_satisfies_insufficient_context_window() {
    let model = make_model("test", false, false, 1000, 2048);
    let req = CapabilityRequest { min_context_window: Some(4000), ..Default::default() };
    assert!(!model.satisfies(&req));
}

#[test]
fn test_satisfies_max_output_tokens() {
    let model = make_model("test", false, false, 4096, 8000);
    let req = CapabilityRequest { max_output_tokens: Some(4000), ..Default::default() };
    assert!(model.satisfies(&req));
}

#[test]
fn test_satisfies_insufficient_max_output() {
    let model = make_model("test", false, false, 4096, 1000);
    let req = CapabilityRequest { max_output_tokens: Some(4000), ..Default::default() };
    assert!(!model.satisfies(&req));
}

#[test]
fn test_satisfies_all_features() {
    let model = make_model("test", true, true, 128000, 4096);
    let req = CapabilityRequest {
        tool_calling: true,
        vision: true,
        structured_output: false,
        thinking: false,
        min_context_window: Some(32000),
        max_output_tokens: Some(2048),
    };
    assert!(model.satisfies(&req));
}

#[test]
fn test_default_capabilities() {
    let caps = ModelCapabilities::default();
    assert_eq!(caps.context_window, 4096);
    assert_eq!(caps.max_output_tokens, 2048);
    assert!(!caps.supports_tool_calling);
    assert!(!caps.supports_vision);
}

#[test]
fn test_default_pricing() {
    let pricing = ModelPricing::default();
    assert_eq!(f64::from_bits(pricing.input_per_million_bits), 0.0);
    assert_eq!(f64::from_bits(pricing.output_per_million_bits), 0.0);
}

#[test]
fn test_default_limits() {
    let limits = ModelLimits::default();
    assert_eq!(limits.max_batch_size, 1);
    assert!(limits.rpm.is_none());
    assert!(limits.tpm.is_none());
}

#[test]
fn test_capability_request_default() {
    let req = CapabilityRequest::default();
    assert!(!req.tool_calling);
    assert!(!req.vision);
    assert!(req.min_context_window.is_none());
}

#[test]
fn test_estimate_tokens_english() {
    let model = make_model("test", false, false, 4096, 2048);
    let tokens = model.estimate_tokens("hello world");
    assert!(tokens > 0);
    assert!(tokens <= 4);
}

#[test]
fn test_estimate_tokens_chinese() {
    let model = make_model("test", false, false, 4096, 2048);
    let tokens = model.estimate_tokens("你好世界");
    assert!(tokens > 0);
    assert!(tokens <= 4);
}

#[test]
fn test_remaining_capacity() {
    let model = make_model("test", false, false, 4096, 2048);
    assert_eq!(model.remaining_capacity(1000), 3096);
    assert_eq!(model.remaining_capacity(5000), 0);
}

#[test]
fn estimate_tokens_exact_values() {
    let model = make_model("test", false, false, 4096, 2048);
    // 11 characters: ceil(11 / 4) = 3
    assert_eq!(model.estimate_tokens("hello world"), 3);
    // 4 ideographs: ceil(4 / 1.5) = 3
    assert_eq!(model.estimate_tokens("你好世界"), 3);
    assert_eq!(model.estimate_tokens(""), 0);
}

#[test]
fn test_token_usage_new() {
    let usage = TokenUsage::new(100, 50);
    assert_eq!(usage.prompt_tokens, 100);
    assert_eq!(usage.completion_tokens, 50);
    assert_eq!(usage.total_tokens, 150);
    assert!(usage.cached_tokens.is_none());
}

#[test]
fn test_token_usage_new_zero() {
    let usage = TokenUsage::new(0, 0);
    assert_eq!(usage.total_tokens, 0);
    assert_eq!(usage.prompt_tokens, 0);
    assert_eq!(usage.completion_tokens, 0);
}

#[test]
fn test_stream_event_content_delta() {
    let evt = StreamEvent::ContentDelta { delta: "Hello".into() };
    match evt {
        StreamEvent::ContentDelta { delta } => assert_eq!(delta, "Hello"),
        _ => panic!("Wrong variant"),
    }
}

#[test]
fn test_stream_event_tool_call_delta() {
    let evt = StreamEvent::ToolCallDelta {
        index: 0,
        id: Some("call_1".into()),
        function_name: Some("search".into()),
        arguments_delta: "{}".into(),
    };
    match evt {
        StreamEvent::ToolCallDelta { index, id, function_name, arguments_delta } => {
            assert_eq!(index, 0);
            assert_eq!(id.unwrap(), "call_1");
            assert_eq!(function_name.unwrap(), "search");
            assert_eq!(arguments_delta, "{}");
        }
        _ => panic!("Wrong variant"),
    }
}

#[test]
fn test_stream_event_thinking_delta() {
    let evt = StreamEvent::ThinkingDelta { delta: "thinking...".into() };
    match evt {
        StreamEvent::ThinkingDelta { delta } => assert_eq!(delta, "thinking..."),
        _ => panic!("Wrong variant"),
    }
}

#[test]
fn test_stream_event_usage() {
    let usage = TokenUsage::new(10, 20);
    let evt = StreamEvent::Usage { usage: usage.clone() };
    match evt {
        StreamEvent::Usage { usage: u } => {
            assert_eq!(u.prompt_tokens, 10);
            assert_eq!(u.completion_tokens, 20);
        }
        _ => panic!("Wrong variant"),
    }
}

#[test]
fn test_stream_event_done() {
    let evt = StreamEvent::Done { finish_reason: FinishReason::Stop, usage: None };
    match evt {
        StreamEvent::Done { finish_reason, usage } => {
            assert!(matches!(finish_reason, FinishReason::Stop));
            assert!(usage.is_none());
        }
        _ => panic!("Wrong variant"),
    }
}

#[test]
fn test_stream_event_done_with_usage() {
    let usage = TokenUsage::new(5, 10);
    let evt = StreamEvent::Done { finish_reason: FinishReason::MaxTokens, usage: Some(usage) };
    match evt {
        StreamEvent::Done { finish_reason, usage } => {
            assert!(matches!(finish_reason, FinishReason::MaxTokens));
            assert_eq!(usage.unwrap().total_tokens, 15);
        }
        _ => panic!("Wrong variant"),
    }
}

#[test]
fn test_completion_response_fields() {
    let usage = TokenUsage::new(10, 20);
    let resp = CompletionResponse {
        content: Some("Hello".into()),
        thinking: None,
        tool_calls: vec![],
        usage,
        model: "gpt-4".into(),
        finish_reason: FinishReason::Stop,
        latency_ms: 100,
        cache_info: None,
    };
    assert_eq!(resp.content.unwrap(), "Hello");
    assert_eq!(resp.model, "gpt-4");
    assert_eq!(resp.latency_ms, 100);
}

#[test]
fn test_completion_request_new() {
    let req = CompletionRequest::new("gpt-4".to_string(), vec![Message::user("Hello")]);
    assert_eq!(req.model.as_deref(), Some("gpt-4"));
    assert_eq!(req.messages.len(), 1);
    assert!(!req.request_id.is_empty());
    assert!(req.tools.is_none());
    assert!(req.temperature_bits.is_none());
    assert!(req.max_tokens.is_none());
    assert!(req.top_p_bits.is_none());
    assert!(req.stop.is_none());
}

#[test]
fn test_completion_request_new_empty_messages() {
    let req = CompletionRequest::new("gpt-4".to_string(), vec![]);
    assert_eq!(req.model.as_deref(), Some("gpt-4"));
    assert!(req.messages.is_empty());
}

#[test]
fn test_completion_request_default_model_none() {
    let req = CompletionRequest::default();
    assert!(req.model.is_none());
}

#[test]
fn test_completion_request_unique_request_id() {
    let req1 = CompletionRequest::new("gpt-4".to_string(), vec![]);
    let req2 = CompletionRequest::new("gpt-4".to_string(), vec![]);
    assert_ne!(req1.request_id, req2.request_id);
}

#[test]
fn request_id_is_a_hyphenated_uuid() {
    let req = CompletionRequest::default();
    assert_eq!(req.request_id.len(), 36);
    assert_eq!(req.request_id.matches('-').count(), 4);
}

#[test]
fn test_request_options_default() {
    let opts = RequestOptions::default();
    assert!(opts.timeout.is_none());
    assert!(opts.cancel.is_none());
    assert!(opts.metadata.is_none());
}

fn gpt4_config() -> ModelConfig {
    ModelConfig {
        name: "gpt-4".into(),
        display_name: None,
        capabilities: ModelCapabilities {
            context_window: 128000,
            max_output_tokens: 4096,
            supports_tool_calling: true,
            ..Default::default()
        },
        pricing: ModelPricing::default(),
        limits: ModelLimits::default(),
    }
}

fn openai_config() -> ProviderConfig {
    ProviderConfig {
        default_model: Some("gpt-4".into()),
        providers: vec![(
            "openai".into(),
            ProviderDefinition {
                provider_type: ProviderType::OpenAi,
                api_key: Some("sk-test".into()),
                base_url: None,
                models: vec![gpt4_config()],
            },
        )],
        routing: vec![],
    }
}

#[test]
fn test_collect_models() {
    let config = openai_config().validate().unwrap();
    let models = config.collect_models();
    assert_eq!(models.len(), 1);
    assert_eq!(models[0].name, "gpt-4");
    assert_eq!(models[0].provider.as_deref(), Some("openai"));
    assert!(models[0].capabilities.supports_tool_calling);
}

fn model_100(name: &str) -> ModelConfig {
    ModelConfig {
        name: name.into(),
        display_name: None,
        capabilities: ModelCapabilities { context_window: 100, max_output_tokens: 100, ..Default::default() },
        pricing: ModelPricing::default(),
        limits: ModelLimits::default(),
    }
}

fn provider(kind: ProviderType, key: Option<&str>, models: Vec<ModelConfig>) -> ProviderDefinition {
    ProviderDefinition { provider_type: kind, api_key: key.map(|k| k.to_string()), base_url: None, models }
}

#[test]
fn test_from_json_valid() {
    let config = openai_config().validate().unwrap();
    assert_eq!(config.default_model.unwrap(), "gpt-4");
    let (name, def) = &config.providers[0];
    assert_eq!(name, "openai");
    assert_eq!(def.provider_type, ProviderType::OpenAi);
    assert_eq!(def.models.len(), 1);
    assert_eq!(def.models[0].name, "gpt-4");
}

#[test]
fn test_from_json_empty_models() {
    let config = ProviderConfig {
        default_model: None,
        providers: vec![("test".into(), provider(ProviderType::OpenAi, Some("sk-test"), vec![]))],
        routing: vec![],
    };
    let result = config.validate();
    assert!(result.is_err());
    let err = result.unwrap_err();
    assert!(err.to_display_string().contains("没有定义任何模型"));
}

#[test]
fn test_from_json_missing_api_key() {
    let config = ProviderConfig {
        default_model: None,
        providers: vec![("test".into(), provider(ProviderType::OpenAi, None, vec![model_100("gpt-4")]))],
        routing: vec![],
    };
    let result = config.validate();
    assert!(result.is_err());
    let err = result.unwrap_err().to_display_string();
    assert!(err.contains("api_key"), "error: {}", err);
    let mut empty_key = openai_config();
    empty_key.providers[0].1.api_key = Some(String::new());
    assert!(empty_key.validate().is_err());
}

#[test]
fn test_from_json_local_no_api_key_needed() {
    let llama = ModelConfig {
        capabilities: ModelCapabilities { context_window: 4096, max_output_tokens: 2048, ..Default::default() },
        ..model_100("llama3")
    };
    let config = ProviderConfig {
        default_model: None,
        providers: vec![("local".into(), provider(ProviderType::Local, None, vec![llama]))],
        routing: vec![],
    };
    let config = config.validate().unwrap();
    assert!(config.providers.iter().any(|(n, _)| n == "local"));
}

#[test]
fn test_collect_models_multiple_providers() {
    let config = ProviderConfig {
        default_model: None,
        providers: vec![
            ("p1".into(), provider(ProviderType::OpenAi, Some("k1"), vec![model_100("m1")])),
            ("p2".into(), provider(ProviderType::Local, None, vec![model_100("m2"), model_100("m3")])),
        ],
        routing: vec![],
    };
    let config = config.validate().unwrap();
    let models = config.collect_models();
    assert_eq!(models.len(), 3);
    assert!(models.iter().any(|m| m.provider.as_deref() == Some("p1")));
    assert!(models.iter().any(|m| m.provider.as_deref() == Some("p2")));
}

#[test]
fn test_route_rule_default_fallback() {
    let rule = RouteRule {
        model: "gpt-4".into(),
        provider: Some("openai".into()),
        temperature_bits: None,
        max_tokens: None,
        fallback: vec![],
    };
    assert_eq!(rule.model, "gpt-4");
}

#[test]
fn test_config_routing() {
    let mut config = openai_config();
    config.providers[0].1.models = vec![model_100("gpt-4")];
    config.routing = vec![(
        "chat".into(),
        RouteRule { model: "gpt-4".into(), provider: Some("openai".into()), temperature_bits: None, max_tokens: None, fallback: vec![] },
    )];
    let config = config.validate().unwrap();
    let chat = config.routing.iter().find(|(n, _)| n == "chat").map(|(_, r)| r);
    assert!(chat.is_some());
    assert_eq!(chat.unwrap().model, "gpt-4");
}

#[test]
fn test_model_config_to_model_info() {
    let cfg = ModelConfig {
        name: "gpt-4".into(),
        display_name: Some("GPT-4".into()),
        capabilities: ModelCapabilities { context_window: 8192, max_output_tokens: 4096, ..Default::default() },
        pricing: ModelPricing {
            input_per_million_bits: 30.0f64.to_bits(),
            output_per_million_bits: 60.0f64.to_bits(),
            ..Default::default()
        },
        limits: ModelLimits::default(),
    };
    let info: ModelInfo = cfg.into();
    assert_eq!(info.name, "gpt-4");
    assert_eq!(info.display_name.unwrap(), "GPT-4");
    assert_eq!(info.capabilities.context_window, 8192);
    assert_eq!(f64::from_bits(info.pricing.input_per_million_bits), 30.0);
    assert!(info.provider.is_none());
}

#[test]
fn test_interpolate_env_no_vars() {
    let input = "hello world";
    let refs = env_references_in(input).unwrap();
    assert!(refs.is_empty());
    let result = interpolate_env(input, &refs, &vec![]);
    assert_eq!(result, "hello world");
}

#[test]
fn test_interpolate_env_with_default() {
    let input = r#"api_key: ${MY_KEY:-default_key}"#;
    let refs = env_references_in(input).unwrap();
    assert_eq!(refs.len(), 1);
    assert_eq!(refs[0].name, "MY_KEY");
    // the variable is not set
    let values: Vec<Option<String>> = vec![None];
    let result = interpolate_env(input, &refs, &values);
    assert_eq!(result, "api_key: default_key");
}

#[test]
fn interpolate_env_prefers_the_variable() {
    let input = "a=${A} b=${B:-two} a=${A}";
    let refs = env_references_in(input).unwrap();
    assert_eq!(refs.len(), 3);
    assert_eq!(refs[0].whole, "${A}");
    assert_eq!(refs[1].default.as_deref(), Some("two"));
    let values = vec![Some("one".to_string()), None, Some("one".to_string())];
    assert_eq!(interpolate_env(input, &refs, &values), "a=one b=two a=one");
    // an unset variable without a default expands to nothing
    let values = vec![None, None, None];
    assert_eq!(interpolate_env(input, &refs, &values), "a= b=two a=");
}

#[test]
fn cancel_token_handles_share_the_token() {
    let raw = tokio_util::sync::CancellationToken::new();
    let token = xz_modules::provider::cancel::CancelToken::from_inner(raw.clone());
    let waiter = token.cancelled();
    assert!(!token.is_cancelled());
    raw.cancel();
    assert!(token.is_cancelled());
    assert!(waiter.is_cancelled());
    assert!(token.into_inner().is_cancelled());
}
