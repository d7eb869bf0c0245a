use xz_modules::provider::accumulator::ToolCallAccumulator;
use xz_modules::provider::claude::{
    build_claude_body, claude_event, claude_response, convert_messages, parse_finish_reason, ClaudeBlock,
    ClaudeEventFields, ClaudeResponseFields, ClaudeRole, ClaudeSource, ClaudeSystem, ClaudeToolChoice,
    ResponseBlockFields,
};
use xz_modules::provider::decision::{
    CostPreference, FallbackCondition, FallbackEntry, LatencyTracker, RouteContext, RouteDecision,
};
use xz_modules::provider::error::ProviderError;
use xz_modules::provider::local::{local_body, local_line_events, local_response, messages_to_prompt, LocalReplyFields};
use xz_modules::provider::message::{
    CacheControl, ContentPart, FinishReason, ImageDetail, Message, MessageContent, StreamEvent, TokenUsage, ToolCall,
    ToolDefinition,
};
use xz_modules::provider::model_info::{CapabilityRequest, ModelCapabilities, ModelInfo, ModelLimits, ModelPricing};
use xz_modules::provider::openai::{
    build_chat_body, chat_response, chunk_events, complete_finish_reason, stream_finish_reason, to_openai_messages,
    ChatResponseFields, ChunkFields, OpenAiContent, OpenAiPart, ToolCallFields, ToolDeltaFields, UsageFields,
};
use xz_modules::provider::request::{CompletionRequest, ResponseFormat, ToolChoice};
use xz_modules::provider::routing::{exhausted_error, request_model, ProviderModels, RouterTable};
use xz_modules::provider::setup::{base_url_for, default_model_of, endpoint, hosted_api_key, provider_models};
use xz_modules::provider::config::{ModelConfig, ProviderDefinition, ProviderType};
use xz_modules::provider::sse::SseLineBuffer;
use xz_modules::provider::wire::{lines_of, ndjson_step, sse_data, sse_step, SseEvent};

#[test]
fn test_finish_reason_mapping() {
    let cases: Vec<(&str, FinishReason)> = vec![
        ("stop", FinishReason::Stop),
        ("tool_calls", FinishReason::ToolCall),
        ("length", FinishReason::MaxTokens),
        ("content_filter", FinishReason::ContentFilter),
    ];
    for (input, expected) in cases {
        let actual = complete_finish_reason(Some(input));
        assert_eq!(actual, expected, "input: {}", input);
        assert_eq!(stream_finish_reason(input), expected, "input: {}", input);
    }
    // unknown finish_reason -> Stop (default)
    assert_eq!(complete_finish_reason(Some("unknown")), FinishReason::Stop);
    assert_eq!(stream_finish_reason("unknown"), FinishReason::Stop);
}

#[test]
fn complete_finish_reason_defaults_to_stop() {
    assert_eq!(complete_finish_reason(None), FinishReason::Stop);
    assert_eq!(complete_finish_reason(Some("length")), FinishReason::MaxTokens);
    assert_eq!(complete_finish_reason(Some("weird")), FinishReason::Stop);
}

#[test]
fn test_to_openai_messages_simple() {
    let messages = vec![Message::system("You are a helpful assistant."), Message::user("Hello!")];
    let result = to_openai_messages(&messages);
    assert_eq!(result.len(), 2);
    assert_eq!(result[0].role, "system");
    assert!(matches!(&result[0].content, OpenAiContent::Text(t) if t == "You are a helpful assistant."));
    assert_eq!(result[1].role, "user");
    assert!(matches!(&result[1].content, OpenAiContent::Text(t) if t == "Hello!"));
}

#[test]
fn test_to_openai_messages_multipart() {
    let parts = vec![
        ContentPart::Text { text: "Describe this: ".into() },
        ContentPart::ImageUrl { url: "https://example.com/img.png".into(), detail: Some(ImageDetail::Auto) },
    ];
    let messages = vec![Message::User { content: MessageContent::MultiPart(parts) }];
    let result = to_openai_messages(&messages);
    assert_eq!(result.len(), 1);
    let content_arr = match &result[0].content {
        OpenAiContent::Parts(p) => p,
        _ => panic!("expected parts"),
    };
    assert_eq!(content_arr.len(), 2);
    assert!(matches!(&content_arr[0], OpenAiPart::Text { .. }));
    match &content_arr[1] {
        OpenAiPart::ImageUrl { url, detail } => {
            assert!(url.starts_with("https://"));
            assert_eq!(*detail, Some(ImageDetail::Auto));
        }
        _ => panic!("expected an image"),
    }
}

#[test]
fn test_to_openai_messages_image_base64() {
    let parts = vec![ContentPart::ImageBase64 { media_type: "image/png".into(), data: "b64data".into() }];
    let messages = vec![Message::User { content: MessageContent::MultiPart(parts) }];
    let result = to_openai_messages(&messages);
    let url = match &result[0].content {
        OpenAiContent::Parts(p) => match &p[0] {
            OpenAiPart::ImageUrl { url, .. } => url.clone(),
            _ => panic!("expected an image"),
        },
        _ => panic!("expected parts"),
    };
    assert!(url.starts_with("data:image/png;base64,"));
    assert_eq!(url, "data:image/png;base64,b64data");
}

#[test]
fn test_to_openai_messages_none_content() {
    let messages = vec![Message::Assistant { content: MessageContent::Empty, tool_calls: None, cache_control: None }];
    let result = to_openai_messages(&messages);
    assert!(matches!(result[0].content, OpenAiContent::Null));
}

#[test]
fn test_to_openai_messages_tool_message() {
    let messages = vec![Message::Tool {
        content: MessageContent::Text("Result: 42".into()),
        tool_call_id: "call_123".into(),
        is_error: false,
    }];
    let result = to_openai_messages(&messages);
    assert_eq!(result[0].tool_call_id.as_deref(), Some("call_123"));
    assert_eq!(result[0].role, "tool");
}

#[test]
fn test_to_openai_messages_cache_control() {
    let messages = vec![Message::System { content: "Be concise".into(), cache_control: Some(CacheControl::Ephemeral) }];
    let result = to_openai_messages(&messages);
    assert_eq!(result[0].cache_control, Some(CacheControl::Ephemeral));
}

#[test]
fn test_to_openai_messages_tool_calls() {
    let calls = vec![ToolCall {
        id: "call_1".into(),
        function_name: "get_weather".into(),
        arguments: serde_json::from_str::<serde_json::Value>("{\"city\": \"NYC\"}").unwrap(),
    }];
    let messages = vec![
        Message::Assistant { content: MessageContent::Text("".into()), tool_calls: Some(calls), cache_control: None },
        Message::Assistant { content: MessageContent::Text("x".into()), tool_calls: Some(vec![]), cache_control: None },
    ];
    let result = to_openai_messages(&messages);
    let calls = result[0].tool_calls.as_ref().unwrap();
    assert_eq!(calls[0].id, "call_1");
    assert_eq!(calls[0].function_name, "get_weather");
    assert_eq!(calls[0].arguments["city"], "NYC");
    // an empty list of calls is left out
    assert!(result[1].tool_calls.is_none());
}

#[test]
fn test_build_chat_body_defaults() {
    let req = CompletionRequest::new("gpt-4".to_string(), vec![Message::user("Hi")]);
    let body = build_chat_body(&req);
    assert_eq!(body.model, "gpt-4");
    assert!(!body.stream);
    assert!(body.temperature_bits.is_none());
    assert!(body.max_tokens.is_none());
}

#[test]
fn test_build_chat_body_with_options() {
    let mut req = CompletionRequest::new("gpt-4".to_string(), vec![Message::user("Hi")]);
    req.temperature_bits = Some(0.7f32.to_bits());
    req.max_tokens = Some(2048);
    req.top_p_bits = Some(0.9f32.to_bits());
    req.stop = Some(vec!["END".into()]);
    let body = build_chat_body(&req);
    assert!((f32::from_bits(body.temperature_bits.unwrap()) as f64 - 0.7).abs() < 1e-6);
    assert_eq!(body.max_tokens, Some(2048));
    assert!((f32::from_bits(body.top_p_bits.unwrap()) as f64 - 0.9).abs() < 1e-6);
    assert_eq!(body.stop.as_ref().unwrap()[0], "END");
}

#[test]
fn test_build_chat_body_with_tools() {
    let mut req = CompletionRequest::new("gpt-4".to_string(), vec![Message::user("Hi")]);
    req.tools = Some(vec![ToolDefinition {
        name: "search".into(),
        description: "Search the web".into(),
        parameters: serde_json::from_str::<serde_json::Value>(r#"{"type": "object"}"#).unwrap(),
        strict: None,
    }]);
    req.tool_choice = Some(ToolChoice::Auto);
    let body = build_chat_body(&req);
    assert!(body.tools.is_some());
    let tools = body.tools.as_ref().unwrap();
    assert_eq!(tools[0].tool_type, "function");
    assert_eq!(tools[0].function.name, "search");
    assert_eq!(tools[0].function.parameters["type"], "object");
    assert!(matches!(body.tool_choice, Some(ToolChoice::Auto)));
}

#[test]
fn test_build_chat_body_with_response_format() {
    let mut req = CompletionRequest::new("gpt-4".to_string(), vec![Message::user("Hi")]);
    req.response_format = Some(ResponseFormat::Json);
    let body = build_chat_body(&req);
    assert!(matches!(body.response_format, Some(ResponseFormat::Json)));
}

#[test]
fn chat_body_model_defaults_to_gpt_4o() {
    let req = CompletionRequest::default();
    let body = build_chat_body(&req);
    assert_eq!(body.model, "gpt-4o");
    assert_eq!(body.messages.len(), 0);
    assert!(body.tools.is_none() && body.stop.is_none() && body.logit_bias.is_none());
}

fn usage(p: u64, c: u64, t: u64) -> UsageFields {
    UsageFields { prompt_tokens: Some(p), completion_tokens: Some(c), total_tokens: Some(t), cached_tokens: None }
}

#[test]
fn chat_response_success_and_tool_calls() {
    let f = ChatResponseFields {
        has_choice: true,
        has_message: true,
        content: None,
        tool_calls: Some(vec![
            ToolCallFields {
                id: Some("call_1".into()),
                name: Some("get_weather".into()),
                arguments: Some("{\"city\": \"NYC\"}".into()),
            },
            // dropped: arguments do not parse
            ToolCallFields { id: Some("call_2".into()), name: Some("x".into()), arguments: Some("{".into()) },
            // dropped: no id
            ToolCallFields { id: None, name: Some("y".into()), arguments: Some("{}".into()) },
        ]),
        model: Some("gpt-4".into()),
        finish_reason: Some("tool_calls".into()),
        usage: Some(usage(20, 10, 30)),
    };
    let resp = chat_response(f, 7).unwrap();
    assert!(resp.content.is_none());
    assert_eq!(resp.finish_reason, FinishReason::ToolCall);
    assert_eq!(resp.tool_calls.len(), 1);
    assert_eq!(resp.tool_calls[0].id, "call_1");
    assert_eq!(resp.tool_calls[0].function_name, "get_weather");
    assert_eq!(resp.tool_calls[0].arguments["city"], "NYC");
    assert_eq!(resp.usage, TokenUsage { prompt_tokens: 20, completion_tokens: 10, total_tokens: 30, cached_tokens: None });
    assert_eq!(resp.latency_ms, 7);
}

#[test]
fn chat_response_errors_and_defaults() {
    let base = ChatResponseFields {
        has_choice: true,
        has_message: true,
        content: Some("Hello!".into()),
        tool_calls: None,
        model: None,
        finish_reason: None,
        usage: None,
    };
    let resp = chat_response(base.clone(), 0).unwrap();
    assert_eq!(resp.content.as_deref(), Some("Hello!"));
    assert_eq!(resp.model, "unknown");
    assert_eq!(resp.finish_reason, FinishReason::Stop);
    assert_eq!(resp.usage, TokenUsage::new(0, 0));
    let mut f = base.clone();
    f.has_choice = false;
    assert!(matches!(chat_response(f, 0), Err(ProviderError::Format(m)) if m == "缺少 choices[0]"));
    let mut f = base.clone();
    f.has_message = false;
    assert!(matches!(chat_response(f, 0), Err(ProviderError::Format(m)) if m == "缺少 message"));
    let mut f = base;
    f.finish_reason = Some("unknown".into());
    f.model = Some("gpt-4".into());
    let r = chat_response(f, 0).unwrap();
    assert_eq!(r.finish_reason, FinishReason::Stop);
    assert_eq!(r.content.as_deref(), Some("Hello!"));
}

#[test]
fn openai_stream_chunks_as_events() {
    let text = ChunkFields {
        has_delta: true,
        content: Some("Hello".into()),
        tool_calls: None,
        finish_reason: None,
        finish_reason_unset: true,
        usage: None,
    };
    assert_eq!(chunk_events(&text), vec![StreamEvent::ContentDelta { delta: "Hello".into() }]);
    let done = ChunkFields {
        has_delta: true,
        content: None,
        tool_calls: None,
        finish_reason: Some("stop".into()),
        finish_reason_unset: false,
        usage: Some(usage(5, 2, 7)),
    };
    assert_eq!(
        chunk_events(&done),
        vec![StreamEvent::Done {
            finish_reason: FinishReason::Stop,
            usage: Some(TokenUsage { prompt_tokens: 5, completion_tokens: 2, total_tokens: 7, cached_tokens: None }),
        }]
    );
    let tools = ChunkFields {
        has_delta: true,
        content: Some(String::new()),
        tool_calls: Some(vec![
            ToolDeltaFields { index: Some(0), id: Some("call_1".into()), name: Some("get_weather".into()), arguments: Some("".into()) },
            ToolDeltaFields { index: None, id: None, name: None, arguments: Some("ignored".into()) },
            ToolDeltaFields { index: Some(0), id: None, name: None, arguments: None },
        ]),
        finish_reason: None,
        finish_reason_unset: true,
        usage: Some(usage(1, 2, 3)),
    };
    assert_eq!(
        chunk_events(&tools),
        vec![
            StreamEvent::ToolCallDelta {
                index: 0,
                id: Some("call_1".into()),
                function_name: Some("get_weather".into()),
                arguments_delta: "".into(),
            },
            StreamEvent::ToolCallDelta { index: 0, id: None, function_name: None, arguments_delta: "".into() },
            StreamEvent::Usage {
                usage: TokenUsage { prompt_tokens: 1, completion_tokens: 2, total_tokens: 3, cached_tokens: None },
            },
        ]
    );
}

#[test]
fn lines_match_str_lines() {
    for text in ["", "a", "a\n", "a\r\nb", "\n\n", "x\r", "a\nb\r\n\r\nc", "data: [DONE]\n\n"] {
        let ours = lines_of(text);
        let std_lines: Vec<String> = text.lines().map(|l| l.to_string()).collect();
        assert_eq!(ours, std_lines, "text {:?}", text);
    }
}

#[test]
fn sse_data_payloads() {
    assert_eq!(sse_data("data: {\"a\":1}").as_deref(), Some("{\"a\":1}"));
    assert_eq!(sse_data("data: ").as_deref(), Some(""));
    assert_eq!(sse_data("data:x"), None);
    assert_eq!(sse_data("event: x"), None);
}

#[test]
fn claude_conversation_conversion() {
    let messages = vec![
        Message::system("be brief"),
        Message::user("hi"),
        Message::Assistant {
            content: MessageContent::Text("calling".into()),
            tool_calls: Some(vec![ToolCall {
                id: "t1".into(),
                function_name: "f".into(),
                arguments: serde_json::from_str::<serde_json::Value>("{\"x\": [1, 2]}").unwrap(),
            }]),
            cache_control: Some(CacheControl::Ephemeral),
        },
        Message::tool_result("t1", "42"),
    ];
    let conv = convert_messages(&messages);
    assert_eq!(conv.system.as_deref(), Some("be brief"));
    assert!(conv.system_blocks.is_empty());
    assert_eq!(conv.messages.len(), 3);
    assert_eq!(conv.messages[0].role, ClaudeRole::User);
    assert!(matches!(&conv.messages[0].content[0], ClaudeBlock::Text { text, cached: false } if text == "hi"));
    assert_eq!(conv.messages[1].role, ClaudeRole::Assistant);
    assert!(matches!(&conv.messages[1].content[0], ClaudeBlock::ToolUse { id, name, .. } if id == "t1" && name == "f"));
    assert!(matches!(&conv.messages[1].content[0], ClaudeBlock::ToolUse { input, .. } if input["x"][1] == 2));
    assert!(matches!(&conv.messages[1].content[1], ClaudeBlock::Text { text, cached: true } if text == "calling"));
    assert_eq!(conv.messages[2].role, ClaudeRole::User);
    assert!(matches!(&conv.messages[2].content[0],
        ClaudeBlock::ToolResult { tool_use_id, content, is_error: false } if tool_use_id == "t1" && content == "42"));
}

#[test]
fn claude_system_blocks() {
    let cached = Message::System { content: "one".into(), cache_control: Some(CacheControl::Ephemeral) };
    let conv = convert_messages(&[cached.clone()]);
    // a single cached block becomes the plain system text
    assert_eq!(conv.system.as_deref(), Some("one"));
    assert!(conv.system_blocks.is_empty());
    let parts = Message::System {
        content: MessageContent::MultiPart(vec![
            ContentPart::Text { text: "two".into() },
            ContentPart::ImageUrl { url: "u".into(), detail: None },
            ContentPart::ImageBase64 { media_type: "image/png".into(), data: "d".into() },
        ]),
        cache_control: None,
    };
    let conv = convert_messages(&[cached, parts]);
    assert!(conv.system.is_none());
    assert_eq!(conv.system_blocks.len(), 3);
    assert!(matches!(&conv.system_blocks[2], ClaudeBlock::Image(ClaudeSource::Base64 { data, .. }) if data == "d"));
}

#[test]
fn claude_finish_reasons() {
    assert_eq!(parse_finish_reason("end_turn"), FinishReason::Stop);
    assert_eq!(parse_finish_reason("tool_use"), FinishReason::ToolCall);
    assert_eq!(parse_finish_reason("max_tokens"), FinishReason::MaxTokens);
    assert_eq!(parse_finish_reason("stop_sequence"), FinishReason::Stop);
    assert_eq!(parse_finish_reason("other"), FinishReason::Stop);
}

#[test]
fn claude_response_assembly() {
    let f = ClaudeResponseFields {
        blocks: vec![
            ResponseBlockFields::Text(Some("Hel".into())),
            ResponseBlockFields::ToolUse { id: Some("tu".into()), name: None, input: serde_json::from_str::<serde_json::Value>("{\"a\": 1}").unwrap() },
            ResponseBlockFields::Other,
            ResponseBlockFields::Text(Some("lo".into())),
        ],
        model: None,
        usage: Some(UsageFields { prompt_tokens: Some(3), completion_tokens: None, total_tokens: None, cached_tokens: None }),
        cache_read_tokens: Some(9),
        stop_reason: Some("tool_use".into()),
    };
    let r = claude_response(f, "model-x", 12);
    assert_eq!(r.content.as_deref(), Some("Hello"));
    assert_eq!(r.tool_calls.len(), 1);
    assert_eq!(r.tool_calls[0].id, "tu");
    assert_eq!(r.tool_calls[0].function_name, "");
    assert_eq!(r.tool_calls[0].arguments, serde_json::from_str::<serde_json::Value>("{\"a\": 1}").unwrap());
    assert_eq!(r.model, "model-x");
    assert_eq!(r.usage, TokenUsage { prompt_tokens: 3, completion_tokens: 0, total_tokens: 3, cached_tokens: Some(9) });
    assert_eq!(r.finish_reason, FinishReason::ToolCall);
}

#[test]
fn claude_stream_events() {
    let start = ClaudeEventFields::BlockStart { index: Some(1), is_tool_use: true, id: Some("t".into()), name: Some("f".into()) };
    assert_eq!(
        claude_event(&start),
        vec![StreamEvent::ToolCallDelta { index: 1, id: Some("t".into()), function_name: Some("f".into()), arguments_delta: "".into() }]
    );
    let text = ClaudeEventFields::BlockDelta { index: Some(0), delta_is_object: true, text: Some("Hi".into()), partial_json: None };
    assert_eq!(claude_event(&text), vec![StreamEvent::ContentDelta { delta: "Hi".into() }]);
    let json = ClaudeEventFields::BlockDelta { index: Some(2), delta_is_object: true, text: None, partial_json: Some("{".into()) };
    assert_eq!(
        claude_event(&json),
        vec![StreamEvent::ToolCallDelta { index: 2, id: None, function_name: None, arguments_delta: "{".into() }]
    );
    let done = ClaudeEventFields::MessageDelta {
        delta_is_object: true,
        stop_reason: Some("end_turn".into()),
        usage: UsageFields { prompt_tokens: None, completion_tokens: Some(5), total_tokens: None, cached_tokens: None },
        usage_is_object: true,
    };
    assert_eq!(claude_event(&done), vec![StreamEvent::Done { finish_reason: FinishReason::Stop, usage: None }]);
    let usage_only = ClaudeEventFields::MessageDelta {
        delta_is_object: false,
        stop_reason: None,
        usage: UsageFields { prompt_tokens: Some(4), completion_tokens: Some(5), total_tokens: None, cached_tokens: None },
        usage_is_object: true,
    };
    assert_eq!(
        claude_event(&usage_only),
        vec![StreamEvent::Usage { usage: TokenUsage { prompt_tokens: 4, completion_tokens: 5, total_tokens: 9, cached_tokens: None } }]
    );
    assert!(claude_event(&ClaudeEventFields::Other).is_empty());
}

#[test]
fn local_prompt_format() {
    let messages = vec![
        Message::system("sys"),
        Message::user("hi"),
        Message::Assistant { content: MessageContent::Empty, tool_calls: None, cache_control: None },
        Message::User { content: MessageContent::MultiPart(vec![]) },
    ];
    assert_eq!(
        messages_to_prompt(&messages),
        "<|system|>\nsys\n<|user|>\nhi\n<|user|>\n[multimodal content]\n<|assistant|>\n"
    );
    assert_eq!(messages_to_prompt(&[]), "<|assistant|>\n");
}

#[test]
fn local_body_defaults() {
    let mut req = CompletionRequest::new("llama3".to_string(), vec![Message::user("hi")]);
    req.stop = Some(vec!["END".into()]);
    let b = local_body(&req, false);
    assert_eq!(f32::from_bits(b.temperature_bits), 0.7);
    assert_eq!(b.num_predict, 2048);
    assert_eq!(b.stop, Some(vec!["END".to_string()]));
    let b = local_body(&req, true);
    assert!(b.stop.is_none());
    assert!(b.stream);
}

#[test]
fn local_replies() {
    let f = LocalReplyFields {
        response: Some("Hello".into()),
        model: None,
        done: Some(true),
        has_eval_count: true,
        prompt_eval_count: Some(3),
        eval_count: Some(4),
    };
    let r = local_response(f.clone(), 5);
    assert_eq!(r.model, "unknown");
    assert_eq!(r.usage, TokenUsage { prompt_tokens: 3, completion_tokens: 4, total_tokens: 0, cached_tokens: None });
    assert_eq!(
        local_line_events(&f),
        vec![
            StreamEvent::ContentDelta { delta: "Hello".into() },
            StreamEvent::Done {
                finish_reason: FinishReason::Stop,
                usage: Some(TokenUsage { prompt_tokens: 3, completion_tokens: 4, total_tokens: 0, cached_tokens: None }),
            },
        ]
    );
    let mid = LocalReplyFields { response: Some(String::new()), model: None, done: Some(false), has_eval_count: false, prompt_eval_count: None, eval_count: None };
    assert!(local_line_events(&mid).is_empty());
}

#[test]
fn test_single_tool_call() {
    let mut acc = ToolCallAccumulator::new();
    acc.process(&StreamEvent::ToolCallDelta {
        index: 0,
        id: Some("call_123".into()),
        function_name: Some("search".into()),
        arguments_delta: "".into(),
    });
    acc.process(&StreamEvent::ToolCallDelta {
        index: 0,
        id: None,
        function_name: None,
        arguments_delta: r#"{"query": "Rust 2024"}"#.into(),
    });

    let mut calls = acc.finalize().unwrap();
    assert_eq!(calls.len(), 1);
    let call = calls.remove(0);
    assert_eq!(call.id, "call_123");
    assert_eq!(call.function_name, "search");
    assert_eq!(call.arguments["query"], "Rust 2024");
}

#[test]
fn test_multiple_tool_calls_parallel() {
    let mut acc = ToolCallAccumulator::new();
    acc.process(&StreamEvent::ToolCallDelta {
        index: 0,
        id: Some("call_0".into()),
        function_name: Some("search".into()),
        arguments_delta: r#"{"q": "a""#.into(),
    });
    acc.process(&StreamEvent::ToolCallDelta {
        index: 1,
        id: Some("call_1".into()),
        function_name: Some("code".into()),
        arguments_delta: r#"{"lang": "rust", "task": "setup"}"#.into(),
    });
    acc.process(&StreamEvent::ToolCallDelta {
        index: 0,
        id: None,
        function_name: None,
        arguments_delta: r#", "b": 2}"#.into(),
    });

    let mut calls = acc.finalize().unwrap();
    assert_eq!(calls.len(), 2);

    let call0 = calls.iter().find(|c| c.id == "call_0").unwrap();
    assert_eq!(call0.arguments["q"], "a");
    assert_eq!(call0.arguments["b"], 2);

    let call1 = calls.iter().find(|c| c.id == "call_1").unwrap();
    assert_eq!(call1.function_name, "code");
    assert_eq!(call1.arguments["lang"], "rust");
    calls.clear();
}

#[test]
fn test_empty_arguments() {
    let mut acc = ToolCallAccumulator::new();
    acc.process(&StreamEvent::ToolCallDelta {
        index: 0,
        id: Some("call_empty".into()),
        function_name: Some("ping".into()),
        arguments_delta: "".into(),
    });

    let mut calls = acc.finalize().unwrap();
    assert_eq!(calls.len(), 1);
    let call = calls.remove(0);
    assert_eq!(call.arguments, serde_json::Value::Object(Default::default()));
}

#[test]
fn test_missing_id_error() {
    let mut acc = ToolCallAccumulator::new();
    acc.process(&StreamEvent::ToolCallDelta {
        index: 0,
        id: None,
        function_name: Some("search".into()),
        arguments_delta: "{}".into(),
    });

    let result = acc.finalize();
    assert!(result.is_err());
}

#[test]
fn accumulator_counts_and_clears() {
    let mut acc = ToolCallAccumulator::new();
    acc.process(&StreamEvent::ToolCallDelta { index: 2, id: Some("c".into()), function_name: Some("f".into()), arguments_delta: "".into() });
    // a delta for index 2 creates calls 0 and 1 as well
    assert_eq!(acc.pending_count(), 3);
    assert!(acc.process(&StreamEvent::ContentDelta { delta: "x".into() }).is_none());
    acc.clear();
    assert_eq!(acc.pending_count(), 0);
    // split arguments assemble to the same text as one piece
    let mut a = ToolCallAccumulator::new();
    a.process(&StreamEvent::ToolCallDelta { index: 0, id: Some("i".into()), function_name: Some("n".into()), arguments_delta: "{\"k\":".into() });
    let p = a.process(&StreamEvent::ToolCallDelta { index: 0, id: None, function_name: None, arguments_delta: "1}".into() }).unwrap();
    assert_eq!(p.arguments_json, "{\"k\":1}");
    let bad = {
        let mut b = ToolCallAccumulator::new();
        b.process(&StreamEvent::ToolCallDelta { index: 0, id: Some("i".into()), function_name: Some("n".into()), arguments_delta: "{".into() });
        b.finalize()
    };
    assert!(matches!(bad, Err(ProviderError::Format(_))));
}

fn make_test_model(name: &str, provider: &str, price: f64) -> ModelInfo {
    ModelInfo {
        name: name.into(),
        display_name: None,
        provider: Some(provider.into()),
        capabilities: ModelCapabilities::default(),
        pricing: ModelPricing { input_per_million_bits: price.to_bits(), ..Default::default() },
        limits: ModelLimits::default(),
    }
}

fn two_provider_table() -> RouterTable {
    RouterTable::new(
        vec![
            ProviderModels { name: "p-a".into(), models: vec!["fast-a".into()] },
            ProviderModels { name: "p-b".into(), models: vec!["fast-b".into()] },
        ],
        vec![make_test_model("fast-a", "p-a", 1.0), make_test_model("fast-b", "p-b", 2.0)],
        vec![],
        "fast-a".to_owned(),
    )
}

#[test]
fn router_latency_fastest_resolve() {
    let mut router = two_provider_table();
    router.latency_tracker.record("fast-a", 999);
    router.latency_tracker.record("fast-b", 50);

    let ctx = RouteContext {
        capabilities: Some(CapabilityRequest::default()),
        cost_preference: CostPreference::Fastest,
        ..Default::default()
    };

    let decision = router.resolve(&ctx).unwrap();
    assert_eq!(decision.model, "fast-b", "Fastest routing should pick the historically faster model");
}

#[test]
fn router_cheapest_and_default() {
    let router = two_provider_table();
    let ctx = RouteContext { capabilities: Some(CapabilityRequest::default()), cost_preference: CostPreference::Cheapest, ..Default::default() };
    assert_eq!(router.resolve(&ctx).unwrap().model, "fast-a");
    let d = router.resolve(&RouteContext::default()).unwrap();
    assert_eq!((d.provider.as_str(), d.model.as_str()), ("p-a", "fast-a"));
    let missing = RouteContext { model: Some("nope".into()), ..Default::default() };
    assert!(matches!(router.resolve(&missing), Err(ProviderError::ModelNotFound(m)) if m == "nope"));
    let impossible = RouteContext { capabilities: Some(CapabilityRequest { vision: true, ..Default::default() }), ..Default::default() };
    assert!(matches!(router.resolve(&impossible), Err(ProviderError::NoModelForCapability { .. })));
}

#[test]
fn router_fallback_run() {
    let mut router = two_provider_table();
    let decision = RouteDecision {
        model: "fast-a".into(),
        provider: "p-a".into(),
        fallback_chain: vec![
            FallbackEntry { model: "m".into(), provider: "gone".into(), condition: FallbackCondition::Always },
            FallbackEntry { model: "fast-b".into(), provider: "p-b".into(), condition: FallbackCondition::Always },
        ],
    };
    let plan = router.fallback_plan(&decision).unwrap();
    assert_eq!(plan, vec![("p-a".to_string(), "fast-a".to_string()), ("p-b".to_string(), "fast-b".to_string())]);
    // a transient failure moves on and is booked as a failure
    assert!(router.record_attempt("fast-a", &Err(ProviderError::Overloaded)));
    assert_eq!(router.latency_tracker.avg_latency("fast-a"), Some(u64::MAX / 2));
    // a success stops and books the latency
    assert!(!router.record_attempt("fast-b", &Ok(450)));
    assert_eq!(router.latency_tracker.avg_latency("fast-b"), Some(450));
    // a fatal error stops and books nothing
    assert!(!router.record_attempt("fast-b", &Err(ProviderError::Auth("x".into()))));
    assert_eq!(router.latency_tracker.avg_latency("fast-b"), Some(450));
    let bad = RouteDecision { model: "x".into(), provider: "nobody".into(), fallback_chain: vec![] };
    assert!(matches!(router.fallback_plan(&bad), Err(ProviderError::Config(m)) if m == "Provider nobody not found"));
    assert!(matches!(exhausted_error(None), ProviderError::Config(m) if m == "No provider available"));
    assert!(matches!(exhausted_error(Some(ProviderError::Overloaded)), ProviderError::Overloaded));
    assert_eq!(request_model(&None, "fast-b").as_deref(), Some("fast-b"));
    assert_eq!(request_model(&Some("own".into()), "fast-b").as_deref(), Some("own"));
}

#[test]
fn provider_setup_values() {
    let def = ProviderDefinition {
        provider_type: ProviderType::Local,
        api_key: None,
        base_url: None,
        models: vec![ModelConfig {
            name: "llama3".into(),
            display_name: None,
            capabilities: ModelCapabilities::default(),
            pricing: ModelPricing::default(),
            limits: ModelLimits::default(),
        }],
    };
    assert_eq!(base_url_for(&def), "http://localhost:11434");
    let models = provider_models(&"ollama".to_string(), &def);
    assert_eq!(models[0].provider.as_deref(), Some("ollama"));
    let mut openai = def.clone();
    openai.provider_type = ProviderType::OpenAi;
    assert_eq!(base_url_for(&openai), "https://api.openai.com/v1");
    assert!(provider_models(&"o".to_string(), &openai)[0].provider.is_none());
    assert!(matches!(hosted_api_key(&None, None, ProviderType::OpenAi), Err(ProviderError::Config(m)) if m.contains("API key")));
    assert_eq!(hosted_api_key(&None, Some("env".into()), ProviderType::Claude).unwrap(), "env");
    assert_eq!(hosted_api_key(&Some("cfg".into()), Some("env".into()), ProviderType::Claude).unwrap(), "cfg");
    assert_eq!(default_model_of(&None, &models), "llama3");
    assert_eq!(default_model_of(&None, &vec![]), "");
    assert_eq!(endpoint("http://h", "/api/generate"), "http://h/api/generate");
}

#[test]
fn sse_step_reassembles_split_data_lines() {
    let c1 = b"data: {\"type\":\"content_block_delta\",\"index\":0,\"delta\":{\"type\":\"text_delta\",\"text\":\"He";
    let c2 = b"llo\"}}\n\ndata: [DONE]\ndata: not json\n";
    let mut buf = SseLineBuffer::new();
    let first = sse_step(&mut buf, c1);
    assert!(first.is_empty());
    let second = sse_step(&mut buf, c2);
    assert_eq!(second.len(), 2);
    match &second[0] {
        SseEvent::Json(v) => {
            assert_eq!(v["type"], "content_block_delta");
            assert_eq!(v["delta"]["text"], "Hello");
        }
        other => panic!("unexpected {:?}", other),
    }
    assert!(matches!(second[1], SseEvent::Done));
    assert!(buf.buffer.is_empty());
}

#[test]
fn ndjson_step_keeps_lines_split_across_chunks() {
    let body = b"{\"model\":\"llama3\",\"response\":\"Hello\",\"done\":false}\n{\"model\":\"llama3\",\"response\":\" World\",\"done\":false}\n{\"model\":\"llama3\",\"done\":true}\n";
    let mut buf = SseLineBuffer::new();
    let mut values = ndjson_step(&mut buf, &body[..20]);
    values.extend(ndjson_step(&mut buf, &body[20..]));
    assert_eq!(values.len(), 3);
    assert_eq!(values[0]["response"], "Hello");
    assert_eq!(values[1]["response"], " World");
    assert_eq!(values[2]["done"], true);
    let events: Vec<StreamEvent> = values
        .iter()
        .flat_map(|v| {
            local_line_events(&LocalReplyFields {
                response: v["response"].as_str().map(|s| s.to_string()),
                model: v["model"].as_str().map(|s| s.to_string()),
                done: v["done"].as_bool(),
                has_eval_count: false,
                prompt_eval_count: None,
                eval_count: None,
            })
        })
        .collect();
    assert_eq!(events.len(), 3);
    assert!(matches!(&events[0], StreamEvent::ContentDelta { delta } if delta == "Hello"));
    assert!(matches!(&events[1], StreamEvent::ContentDelta { delta } if delta == " World"));
    assert!(matches!(&events[2], StreamEvent::Done { finish_reason: FinishReason::Stop, usage: None }));
}

#[test]
fn claude_body_settings() {
    let mut req = CompletionRequest::new("m".to_string(), vec![Message::system("sys"), Message::user("hi")]);
    req.stop = Some(vec!["END".to_string()]);
    req.tool_choice = Some(ToolChoice::Required);
    req.temperature_bits = Some(0x3F00_0000);
    let b = build_claude_body(convert_messages(&req.messages), &req, false);
    assert_eq!(b.model.as_deref(), Some("m"));
    assert_eq!(b.max_tokens, 4096);
    assert!(!b.stream);
    assert_eq!(b.messages.len(), 1);
    assert!(matches!(&b.system, Some(ClaudeSystem::Text(t)) if t == "sys"));
    assert_eq!(b.stop_sequences, Some(vec!["END".to_string()]));
    assert!(matches!(b.tool_choice, Some(ClaudeToolChoice::Any)));
    assert_eq!(b.temperature_bits, Some(0x3F00_0000));

    req.max_tokens = Some(100);
    req.tool_choice = Some(ToolChoice::Specific { name: "search".to_string() });
    let b = build_claude_body(convert_messages(&req.messages), &req, false);
    assert_eq!(b.max_tokens, 100);
    assert!(matches!(&b.tool_choice, Some(ClaudeToolChoice::Tool(n)) if n == "search"));

    let s = build_claude_body(convert_messages(&req.messages), &req, true);
    assert!(s.stream);
    assert!(s.stop_sequences.is_none());
    assert!(s.tool_choice.is_none());

    let plain = CompletionRequest::new("m".to_string(), vec![Message::user("hi")]);
    let p = build_claude_body(convert_messages(&plain.messages), &plain, false);
    assert!(p.system.is_none());
    req.tool_choice = Some(ToolChoice::Disabled);
    let d = build_claude_body(convert_messages(&req.messages), &req, false);
    assert!(matches!(d.tool_choice, Some(ClaudeToolChoice::Auto)));
}

#[test]
fn recorded_latency_is_remembered() {
    let mut t = LatencyTracker::new(2);
    assert_eq!(t.avg_latency("m"), None);
    t.record("m", 450);
    assert_eq!(t.avg_latency("m"), Some(450));
    t.record("m", 150);
    assert_eq!(t.avg_latency("m"), Some(300));
    t.record("m", 50);
    assert_eq!(t.avg_latency("m"), Some(100));
    assert_eq!(t.avg_latency("other"), None);
    let mut one = LatencyTracker::new(1);
    one.record("x", 7);
    one.record("x", 9);
    assert_eq!(one.avg_latency("x"), Some(9));
}

#[test]
fn cheapest_routing_ignores_overflowing_latency_sums() {
    let mut router = two_provider_table();
    router.latency_tracker.record_error("fast-a");
    router.latency_tracker.record_error("fast-a");
    router.latency_tracker.record_error("fast-a");
    assert!(!router.check_latency_sums());
    let ctx = RouteContext {
        capabilities: Some(CapabilityRequest::default()),
        cost_preference: CostPreference::Cheapest,
        ..Default::default()
    };
    assert_eq!(router.resolve(&ctx).unwrap().model, "fast-a");
}

#[test]
fn finalize_gives_parsed_arguments_or_empty_object() {
    let mut acc = ToolCallAccumulator::new();
    acc.process(&StreamEvent::ToolCallDelta {
        index: 0,
        id: Some("c0".into()),
        function_name: Some("f".into()),
        arguments_delta: "".into(),
    });
    acc.process(&StreamEvent::ToolCallDelta {
        index: 1,
        id: Some("c1".into()),
        function_name: Some("g".into()),
        arguments_delta: r#"{"n": [1, {"k": null}]}"#.into(),
    });
    let calls = acc.finalize().unwrap();
    assert_eq!(calls[0].arguments, serde_json::Value::Object(Default::default()));
    assert_eq!(calls[1].arguments, serde_json::from_str::<serde_json::Value>(r#"{"n": [1, {"k": null}]}"#).unwrap());
}
