//! The OpenAI-compatible chat API: request messages on the wire, and what
//! responses and stream chunks mean.
use vstd::prelude::*;
use crate::provider::accumulator::{json_parses, json_value, parse_json_value};
use crate::provider::error::ProviderError;
use crate::provider::message::{
    message_content, spec_role_str, CacheControl, ContentPart, FinishReason, ImageDetail, Message,
    MessageContent, StreamEvent, TokenUsage, ToolCall, ToolDefinition, CompletionResponse,
};
use crate::provider::request::{CompletionRequest, ReasoningEffort, ResponseFormat, ToolChoice};
use crate::rag::types::copy_strings;
use std::time::Duration;
use crate::clock::{duration_as_millis, duration_millis};
use crate::text::{push_str, str_eq};

verus! {

/// A content part as the chat API takes it.
#[derive(Debug, Clone)]
pub enum OpenAiPart {
    Text { text: String },
    ImageUrl { url: String, detail: Option<ImageDetail> },
}

/// Message content as the chat API takes it.
#[derive(Debug, Clone)]
pub enum OpenAiContent {
    Text(String),
    Parts(Vec<OpenAiPart>),
    Null,
}

/// A message as the chat API takes it.
#[derive(Debug, Clone)]
pub struct OpenAiMessage {
    pub role: String,
    pub content: OpenAiContent,
    pub cache_control: Option<CacheControl>,
    pub tool_call_id: Option<String>,
    pub tool_calls: Option<Vec<ToolCall>>,
}

/// `w` is content part `p` on the wire: text as text, an image URL as it is, a
/// base64 image as a `data:` URL, and audio or a file as empty text.
pub open spec fn openai_part_ok(w: OpenAiPart, p: ContentPart) -> bool {
    match p {
        ContentPart::Text { text } => w matches OpenAiPart::Text { text: t } && t@ == text@,
        ContentPart::ImageUrl { url, detail } => w matches OpenAiPart::ImageUrl { url: u, detail: d } && u@ == url@
            && d == detail,
        ContentPart::ImageBase64 { media_type, data } => w matches OpenAiPart::ImageUrl { url: u, detail: d }
            && u@ == "data:"@ + media_type@ + ";base64,"@ + data@ && d is None,
        _ => w matches OpenAiPart::Text { text: t } && t@.len() == 0,
    }
}

/// `w` is content `c` on the wire; no content is `null`.
pub open spec fn openai_content_ok(w: OpenAiContent, c: MessageContent) -> bool {
    match c {
        MessageContent::Text(t) => w matches OpenAiContent::Text(s) && s@ == t@,
        MessageContent::MultiPart(ps) => w matches OpenAiContent::Parts(ws) && ws@.len() == ps@.len()
            && forall|i: int| 0 <= i < ps@.len() ==> openai_part_ok(#[trigger] ws@[i], ps@[i]),
        MessageContent::Empty => w is Null,
    }
}

/// The cache marker a message carries on the wire (system and assistant only).
pub open spec fn wire_cache_control(m: Message) -> Option<CacheControl> {
    match m {
        Message::System { cache_control, .. } => cache_control,
        Message::Assistant { cache_control, .. } => cache_control,
        _ => None,
    }
}

/// `w` is message `m` on the wire: its role name and content, its cache marker,
/// the tool call it answers, and the tool calls of an assistant message when
/// there are any (same ids, names and arguments, in order).
pub open spec fn openai_message_ok(w: OpenAiMessage, m: Message) -> bool {
    &&& w.role@ == spec_role_str(m)
    &&& openai_content_ok(w.content, message_content(m))
    &&& w.cache_control == wire_cache_control(m)
    &&& match m {
        Message::Tool { tool_call_id, .. } => w.tool_call_id matches Some(id) && id@ == tool_call_id@,
        _ => w.tool_call_id is None,
    }
    &&& match m {
        Message::Assistant { tool_calls: Some(calls), .. } => if calls@.len() > 0 {
            w.tool_calls matches Some(ws) && ws@.len() == calls@.len() && forall|i: int| 0 <= i < calls@.len()
                ==> (#[trigger] ws@[i]).id@ == calls@[i].id@ && ws@[i].function_name@ == calls@[i].function_name@
                && ws@[i].arguments == calls@[i].arguments
        } else {
            w.tool_calls is None
        },
        _ => w.tool_calls is None,
    }
}

fn wire_part(p: &ContentPart) -> (w: OpenAiPart)
    ensures
        openai_part_ok(w, *p),
{
    match p {
        ContentPart::Text { text } => OpenAiPart::Text { text: text.clone() },
        ContentPart::ImageUrl { url, detail } => OpenAiPart::ImageUrl { url: url.clone(), detail: *detail },
        ContentPart::ImageBase64 { media_type, data } => {
            let mut u = String::new();
            push_str(&mut u, "data:");
            push_str(&mut u, media_type.as_str());
            push_str(&mut u, ";base64,");
            push_str(&mut u, data.as_str());
            proof {
                assert(u@ =~= "data:"@ + media_type@ + ";base64,"@ + data@);
            }
            OpenAiPart::ImageUrl { url: u, detail: None }
        },
        _ => OpenAiPart::Text { text: String::new() },
    }
}

fn wire_content(c: &MessageContent) -> (w: OpenAiContent)
    ensures
        openai_content_ok(w, *c),
{
    match c {
        MessageContent::Text(t) => OpenAiContent::Text(t.clone()),
        MessageContent::MultiPart(parts) => {
            let mut ws: Vec<OpenAiPart> = Vec::new();
            let mut i: usize = 0;
            while i < parts.len()
                invariant
                    i <= parts@.len(),
                    ws@.len() == i,
                    forall|j: int| 0 <= j < i ==> openai_part_ok(#[trigger] ws@[j], parts@[j]),
                decreases parts.len() - i,
            {
                ws.push(wire_part(&parts[i]));
                i = i + 1;
            }
            OpenAiContent::Parts(ws)
        },
        MessageContent::Empty => OpenAiContent::Null,
    }
}

/// A copy of tool calls: ids, names and arguments equal.
pub(crate) fn copy_tool_calls(calls: &Vec<ToolCall>) -> (r: Vec<ToolCall>)
    ensures
        r@.len() == calls@.len(),
        forall|i: int| 0 <= i < calls@.len() ==> (#[trigger] r@[i]).id@ == calls@[i].id@
            && r@[i].function_name@ == calls@[i].function_name@ && r@[i].arguments == calls@[i].arguments,
{
    let mut r: Vec<ToolCall> = Vec::new();
    let mut i: usize = 0;
    while i < calls.len()
        invariant
            i <= calls@.len(),
            r@.len() == i,
            forall|j: int| 0 <= j < i ==> (#[trigger] r@[j]).id@ == calls@[j].id@
                && r@[j].function_name@ == calls@[j].function_name@ && r@[j].arguments == calls@[j].arguments,
        decreases calls.len() - i,
    {
        let c = &calls[i];
        r.push(ToolCall { id: c.id.clone(), function_name: c.function_name.clone(), arguments: c.arguments.clone() });
        i = i + 1;
    }
    r
}

fn wire_message(m: &Message) -> (w: OpenAiMessage)
    ensures
        openai_message_ok(w, *m),
{
    let role = String::from_str(m.role_str());
    let content = wire_content(m.content());
    match m {
        Message::System { cache_control, .. } => OpenAiMessage {
            role,
            content,
            cache_control: *cache_control,
            tool_call_id: None,
            tool_calls: None,
        },
        Message::User { .. } => OpenAiMessage { role, content, cache_control: None, tool_call_id: None, tool_calls: None },
        Message::Assistant { tool_calls, cache_control, .. } => {
            let calls = match tool_calls {
                Some(cs) => if cs.len() > 0 { Some(copy_tool_calls(cs)) } else { None },
                None => None,
            };
            OpenAiMessage { role, content, cache_control: *cache_control, tool_call_id: None, tool_calls: calls }
        },
        Message::Tool { tool_call_id, .. } => OpenAiMessage {
            role,
            content,
            cache_control: None,
            tool_call_id: Some(tool_call_id.clone()),
            tool_calls: None,
        },
    }
}

/// The messages of a conversation as the chat API takes them, one for one.
pub fn to_openai_messages(messages: &[Message]) -> (r: Vec<OpenAiMessage>)
    ensures
        r@.len() == messages@.len(),
        forall|i: int| 0 <= i < messages@.len() ==> openai_message_ok(#[trigger] r@[i], messages@[i]),
{
    let mut r: Vec<OpenAiMessage> = Vec::new();
    let mut i: usize = 0;
    while i < messages.len()
        invariant
            i <= messages@.len(),
            r@.len() == i,
            forall|j: int| 0 <= j < i ==> openai_message_ok(#[trigger] r@[j], messages@[j]),
        decreases messages.len() - i,
    {
        r.push(wire_message(&messages[i]));
        i = i + 1;
    }
    r
}

/// A tool as the chat API takes it: a function (`tool_type` is `function`).
#[derive(Debug, Clone)]
pub struct OpenAiTool {
    pub tool_type: String,
    pub function: ToolDefinition,
}

/// A chat request body: the model (`gpt-4o` when the request names none), the
/// messages on the wire, the stream flag, and the request's settings as it holds
/// them, its tools wrapped as functions.
#[derive(Debug, Clone)]
pub struct ChatBody {
    pub model: String,
    pub messages: Vec<OpenAiMessage>,
    pub stream: bool,
    pub temperature_bits: Option<u32>,
    pub max_tokens: Option<usize>,
    pub max_completion_tokens: Option<usize>,
    pub stop: Option<Vec<String>>,
    pub top_p_bits: Option<u32>,
    pub top_k: Option<u32>,
    pub frequency_penalty_bits: Option<u32>,
    pub presence_penalty_bits: Option<u32>,
    pub seed: Option<u64>,
    pub reasoning_effort: Option<ReasoningEffort>,
    pub logprobs: Option<bool>,
    pub logit_bias: Option<Vec<(String, u32)>>,
    pub tools: Option<Vec<OpenAiTool>>,
    pub tool_choice: Option<ToolChoice>,
    pub response_format: Option<ResponseFormat>,
}

/// The model a chat request asks for.
pub open spec fn chat_model(r: CompletionRequest) -> Seq<char> {
    match r.model {
        Some(m) => m@,
        None => "gpt-4o"@,
    }
}

/// `w` is the list `v` as the body carries it (both absent, or the same items).
pub open spec fn same_list<T>(w: Option<Vec<T>>, v: Option<Vec<T>>) -> bool {
    match (w, v) {
        (Some(a), Some(b)) => a@ == b@,
        (None, None) => true,
        _ => false,
    }
}

/// `w` is the request's tool list `v` with each tool wrapped as a function.
pub open spec fn wrapped_tools(w: Option<Vec<OpenAiTool>>, v: Option<Vec<ToolDefinition>>) -> bool {
    match (w, v) {
        (Some(a), Some(b)) => a@.len() == b@.len() && forall|i: int| 0 <= i < a@.len() ==>
            (#[trigger] a@[i]).tool_type@ == "function"@ && a@[i].function == b@[i],
        (None, None) => true,
        _ => false,
    }
}

fn copy_tool_definition(t: &ToolDefinition) -> (r: ToolDefinition)
    ensures
        r == *t,
{
    ToolDefinition {
        name: t.name.clone(),
        description: t.description.clone(),
        parameters: t.parameters.clone(),
        strict: t.strict,
    }
}

fn wrap_tools(tools: &Vec<ToolDefinition>) -> (r: Vec<OpenAiTool>)
    ensures
        r@.len() == tools@.len(),
        forall|i: int| 0 <= i < r@.len() ==> (#[trigger] r@[i]).tool_type@ == "function"@ && r@[i].function == tools@[i],
{
    let mut r: Vec<OpenAiTool> = Vec::new();
    let mut i: usize = 0;
    while i < tools.len()
        invariant
            i <= tools@.len(),
            r@.len() == i,
            forall|j: int| 0 <= j < i ==> (#[trigger] r@[j]).tool_type@ == "function"@ && r@[j].function == tools@[j],
        decreases tools.len() - i,
    {
        r.push(OpenAiTool { tool_type: String::from_str("function"), function: copy_tool_definition(&tools[i]) });
        i = i + 1;
    }
    r
}

fn copy_tool_choice(tc: &ToolChoice) -> (r: ToolChoice)
    ensures
        r == *tc,
{
    match tc {
        ToolChoice::Auto => ToolChoice::Auto,
        ToolChoice::Required => ToolChoice::Required,
        ToolChoice::Disabled => ToolChoice::Disabled,
        ToolChoice::Specific { name } => ToolChoice::Specific { name: name.clone() },
    }
}

fn copy_response_format(f: &ResponseFormat) -> (r: ResponseFormat)
    ensures
        r == *f,
{
    match f {
        ResponseFormat::Json => ResponseFormat::Json,
        ResponseFormat::JsonSchema { schema, name } => ResponseFormat::JsonSchema {
            schema: schema.clone(),
            name: name.clone(),
        },
    }
}

fn copy_bias(v: &Vec<(String, u32)>) -> (r: Vec<(String, u32)>)
    ensures
        r@ == v@,
{
    let mut r: Vec<(String, u32)> = Vec::new();
    let mut i: usize = 0;
    while i < v.len()
        invariant
            i <= v@.len(),
            r@ == v@.take(i as int),
        decreases v.len() - i,
    {
        proof {
            assert(v@.take(i + 1) =~= v@.take(i as int).push(v@[i as int]));
        }
        r.push((v[i].0.clone(), v[i].1));
        i = i + 1;
    }
    proof {
        assert(v@.take(v@.len() as int) =~= v@);
    }
    r
}

/// The body of a chat request (not streamed; a streaming call sets the flag).
pub fn build_chat_body(request: &CompletionRequest) -> (b: ChatBody)
    ensures
        b.model@ == chat_model(*request),
        b.messages@.len() == request.messages@.len(),
        forall|i: int| 0 <= i < request.messages@.len() ==> openai_message_ok(#[trigger] b.messages@[i], request.messages@[i]),
        !b.stream,
        b.temperature_bits == request.temperature_bits,
        b.max_tokens == request.max_tokens,
        b.max_completion_tokens == request.max_completion_tokens,
        same_list(b.stop, request.stop),
        b.top_p_bits == request.top_p_bits,
        b.top_k == request.top_k,
        b.frequency_penalty_bits == request.frequency_penalty_bits,
        b.presence_penalty_bits == request.presence_penalty_bits,
        b.seed == request.seed,
        b.reasoning_effort == request.reasoning_effort,
        b.logprobs == request.logprobs,
        same_list(b.logit_bias, request.logit_bias),
        wrapped_tools(b.tools, request.tools),
        b.tool_choice == request.tool_choice,
        b.response_format == request.response_format,
{
    let model = match &request.model {
        Some(m) => m.clone(),
        None => String::from_str("gpt-4o"),
    };
    ChatBody {
        model,
        messages: to_openai_messages(request.messages.as_slice()),
        stream: false,
        temperature_bits: request.temperature_bits,
        max_tokens: request.max_tokens,
        max_completion_tokens: request.max_completion_tokens,
        stop: match &request.stop {
            Some(st) => Some(copy_strings(st)),
            None => None,
        },
        top_p_bits: request.top_p_bits,
        top_k: request.top_k,
        frequency_penalty_bits: request.frequency_penalty_bits,
        presence_penalty_bits: request.presence_penalty_bits,
        seed: request.seed,
        reasoning_effort: request.reasoning_effort,
        logprobs: request.logprobs,
        logit_bias: match &request.logit_bias {
            Some(v) => Some(copy_bias(v)),
            None => None,
        },
        tools: match &request.tools {
            Some(ts) => Some(wrap_tools(ts)),
            None => None,
        },
        tool_choice: match &request.tool_choice {
            Some(tc) => Some(copy_tool_choice(tc)),
            None => None,
        },
        response_format: match &request.response_format {
            Some(f) => Some(copy_response_format(f)),
            None => None,
        },
    }
}

/// The finish reasons the chat API names.
pub open spec fn known_finish(s: Seq<char>) -> Option<FinishReason> {
    if s == "stop"@ {
        Some(FinishReason::Stop)
    } else if s == "tool_calls"@ {
        Some(FinishReason::ToolCall)
    } else if s == "length"@ {
        Some(FinishReason::MaxTokens)
    } else if s == "content_filter"@ {
        Some(FinishReason::ContentFilter)
    } else {
        None
    }
}

fn known_finish_reason(s: &str) -> (r: Option<FinishReason>)
    ensures
        r == known_finish(s@),
{
    if str_eq(s, "stop") {
        Some(FinishReason::Stop)
    } else if str_eq(s, "tool_calls") {
        Some(FinishReason::ToolCall)
    } else if str_eq(s, "length") {
        Some(FinishReason::MaxTokens)
    } else if str_eq(s, "content_filter") {
        Some(FinishReason::ContentFilter)
    } else {
        None
    }
}

/// Finish reason of a stream chunk: an unknown one counts as `Stop`.
pub fn stream_finish_reason(s: &str) -> (r: FinishReason)
    ensures
        r == (match known_finish(s@) { Some(f) => f, None => FinishReason::Stop }),
{
    match known_finish_reason(s) {
        Some(f) => f,
        None => FinishReason::Stop,
    }
}

/// Finish reason of a complete response: `Stop` when absent or not one the chat
/// API names.
pub fn complete_finish_reason(s: Option<&str>) -> (r: FinishReason)
    ensures
        r == (match s {
            Some(v) => match known_finish(v@) { Some(f) => f, None => FinishReason::Stop },
            None => FinishReason::Stop,
        }),
{
    match s {
        None => FinishReason::Stop,
        Some(v) => stream_finish_reason(v),
    }
}

/// Token counts as a response reports them; a missing count is `None`.
#[derive(Debug, Clone, Copy)]
pub struct UsageFields {
    pub prompt_tokens: Option<u64>,
    pub completion_tokens: Option<u64>,
    pub total_tokens: Option<u64>,
    pub cached_tokens: Option<u64>,
}

/// A reported count as a `u32`: missing counts are 0, larger ones truncated.
pub open spec fn count_u32(c: Option<u64>) -> u32 {
    match c {
        Some(v) => v as u32,
        None => 0,
    }
}

/// The usage a chat response reports.
pub open spec fn chat_usage(u: UsageFields) -> TokenUsage {
    TokenUsage {
        prompt_tokens: count_u32(u.prompt_tokens),
        completion_tokens: count_u32(u.completion_tokens),
        total_tokens: count_u32(u.total_tokens),
        cached_tokens: match u.cached_tokens {
            Some(v) => Some(v as u32),
            None => None,
        },
    }
}

fn count_of(c: Option<u64>) -> (r: u32)
    ensures
        r == count_u32(c),
{
    match c {
        Some(v) => v as u32,
        None => 0,
    }
}

pub fn usage_of(u: &UsageFields) -> (r: TokenUsage)
    ensures
        r == chat_usage(*u),
{
    TokenUsage {
        prompt_tokens: count_of(u.prompt_tokens),
        completion_tokens: count_of(u.completion_tokens),
        total_tokens: count_of(u.total_tokens),
        cached_tokens: match u.cached_tokens {
            Some(v) => Some(v as u32),
            None => None,
        },
    }
}

/// A tool call as a response lists it; a missing or non-string field is `None`.
#[derive(Debug, Clone)]
pub struct ToolCallFields {
    pub id: Option<String>,
    pub name: Option<String>,
    pub arguments: Option<String>,
}

/// What a complete chat response holds: whether `choices[0]` and its `message`
/// are objects, the message text, the listed tool calls, the model, the finish
/// reason, and the usage when it is an object.
#[derive(Debug, Clone)]
pub struct ChatResponseFields {
    pub has_choice: bool,
    pub has_message: bool,
    pub content: Option<String>,
    pub tool_calls: Option<Vec<ToolCallFields>>,
    pub model: Option<String>,
    pub finish_reason: Option<String>,
    pub usage: Option<UsageFields>,
}

/// A listed tool call is kept when it has an id, a name and arguments that parse.
pub open spec fn call_kept(f: ToolCallFields) -> bool {
    f.id is Some && f.name is Some && f.arguments is Some && json_parses(f.arguments->Some_0@)
}

/// Positions of the kept tool calls, in order.
pub open spec fn kept_calls(fs: Seq<ToolCallFields>) -> Seq<int>
    decreases fs.len(),
{
    if fs.len() == 0 {
        Seq::empty()
    } else if call_kept(fs.last()) {
        kept_calls(fs.drop_last()).push(fs.len() - 1)
    } else {
        kept_calls(fs.drop_last())
    }
}

/// `c` is listed call `f`.
pub open spec fn call_from(c: ToolCall, f: ToolCallFields) -> bool {
    &&& f.id matches Some(id) && c.id@ == id@
    &&& f.name matches Some(n) && c.function_name@ == n@
    &&& f.arguments matches Some(a) && json_value(a@) == Some(c.arguments)
}

fn collect_calls(fs: &Vec<ToolCallFields>) -> (r: Vec<ToolCall>)
    ensures
        r@.len() == kept_calls(fs@).len(),
        forall|k: int| 0 <= k < r@.len() ==> call_from(#[trigger] r@[k], fs@[kept_calls(fs@)[k]]),
{
    let mut r: Vec<ToolCall> = Vec::new();
    let mut i: usize = 0;
    while i < fs.len()
        invariant
            i <= fs@.len(),
            r@.len() == kept_calls(fs@.take(i as int)).len(),
            forall|k: int| 0 <= k < kept_calls(fs@.take(i as int)).len() ==> 0 <= #[trigger] kept_calls(fs@.take(i as int))[k] < i,
            forall|k: int| 0 <= k < r@.len() ==> call_from(#[trigger] r@[k], fs@[kept_calls(fs@.take(i as int))[k]]),
        decreases fs.len() - i,
    {
        let f = &fs[i];
        proof {
            assert(fs@.take(i + 1).drop_last() =~= fs@.take(i as int));
            assert(fs@.take(i + 1).last() == fs@[i as int]);
        }
        match (&f.id, &f.name, &f.arguments) {
            (Some(id), Some(name), Some(args)) => match parse_json_value(args.as_str()) {
                Ok(v) => {
                    let ghost old_r = r@;
                    r.push(ToolCall { id: id.clone(), function_name: name.clone(), arguments: v });
                    proof {
                        assert forall|k: int| 0 <= k < r@.len() implies call_from(#[trigger] r@[k],
                            fs@[kept_calls(fs@.take(i + 1))[k]]) by {
                            if k < old_r.len() {
                                assert(r@[k] == old_r[k]);
                            }
                        }
                    }
                },
                Err(_) => {},
            },
            _ => {},
        }
        i = i + 1;
    }
    proof {
        assert(fs@.take(fs@.len() as int) =~= fs@);
    }
    r
}

/// The completion a chat response stands for: `Format` errors when `choices[0]`
/// or its message is missing; else the text, the kept tool calls, the model
/// (`unknown` when absent), the finish reason (`Stop` when absent or unknown) and
/// the usage (all zero when absent).
pub fn chat_response(f: ChatResponseFields, latency_ms: u64) -> (r: Result<CompletionResponse, ProviderError>)
    ensures
        !f.has_choice ==> (r matches Err(ProviderError::Format(m)) && m@ == "缺少 choices[0]"@),
        f.has_choice && !f.has_message ==> (r matches Err(ProviderError::Format(m)) && m@ == "缺少 message"@),
        f.has_choice && f.has_message ==> (r matches Ok(resp) && {
            let calls = match f.tool_calls { Some(v) => v@, None => Seq::empty() };
            &&& resp.content == f.content
            &&& resp.thinking is None
            &&& resp.tool_calls@.len() == kept_calls(calls).len()
            &&& forall|k: int| 0 <= k < resp.tool_calls@.len() ==> call_from(#[trigger] resp.tool_calls@[k], calls[kept_calls(calls)[k]])
            &&& resp.model@ == (match f.model { Some(m) => m@, None => "unknown"@ })
            &&& resp.finish_reason == (match f.finish_reason {
                Some(s) => match known_finish(s@) { Some(k) => k, None => FinishReason::Stop },
                None => FinishReason::Stop,
            })
            &&& resp.usage == (match f.usage { Some(u) => chat_usage(u), None => TokenUsage { prompt_tokens: 0, completion_tokens: 0, total_tokens: 0, cached_tokens: None } })
            &&& resp.latency_ms == latency_ms
            &&& resp.cache_info is None
        }),
{
    if !f.has_choice {
        return Err(ProviderError::Format(String::from_str("缺少 choices[0]")));
    }
    if !f.has_message {
        return Err(ProviderError::Format(String::from_str("缺少 message")));
    }
    let tool_calls = match &f.tool_calls {
        Some(v) => collect_calls(v),
        None => Vec::new(),
    };
    let model = match &f.model {
        Some(m) => m.clone(),
        None => String::from_str("unknown"),
    };
    let finish_reason = match &f.finish_reason {
        Some(s) => complete_finish_reason(Some(s.as_str())),
        None => complete_finish_reason(None),
    };
    let usage = match &f.usage {
        Some(u) => usage_of(u),
        None => TokenUsage::new(0, 0),
    };
    Ok(CompletionResponse {
        content: f.content,
        thinking: None,
        tool_calls,
        usage,
        model,
        finish_reason,
        latency_ms,
        cache_info: None,
    })
}

/// A tool-call delta of a stream chunk; a missing field is `None`.
#[derive(Debug, Clone)]
pub struct ToolDeltaFields {
    pub index: Option<u64>,
    pub id: Option<String>,
    pub name: Option<String>,
    pub arguments: Option<String>,
}

/// What a stream chunk holds: whether `choices[0].delta` is an object, its text
/// and tool-call deltas, the finish reason when it is a string, whether the
/// finish reason is absent or null, and the usage when it is an object.
#[derive(Debug, Clone)]
pub struct ChunkFields {
    pub has_delta: bool,
    pub content: Option<String>,
    pub tool_calls: Option<Vec<ToolDeltaFields>>,
    pub finish_reason: Option<String>,
    pub finish_reason_unset: bool,
    pub usage: Option<UsageFields>,
}

/// The tool-call deltas of a chunk that carry an index, as events.
pub open spec fn delta_events_ok(es: Seq<StreamEvent>, ds: Seq<ToolDeltaFields>) -> bool
    decreases ds.len(),
{
    if ds.len() == 0 {
        es.len() == 0
    } else if ds.last().index is Some {
        es.len() > 0 && delta_events_ok(es.drop_last(), ds.drop_last()) && tool_delta_event(es.last(), ds.last())
    } else {
        delta_events_ok(es, ds.drop_last())
    }
}

/// `e` is tool-call delta `d`: its index, id and name, and its argument text (empty
/// when absent).
pub open spec fn tool_delta_event(e: StreamEvent, d: ToolDeltaFields) -> bool {
    &&& d.index is Some
    &&& e matches StreamEvent::ToolCallDelta { index, id, function_name, arguments_delta }
        && index == d.index->Some_0 as usize
        && id == d.id && function_name == d.name
        && arguments_delta@ == (match d.arguments { Some(a) => a@, None => Seq::<char>::empty() })
}

fn tool_delta_events(ds: &Vec<ToolDeltaFields>, out: &mut Vec<StreamEvent>)
    ensures
        final(out)@.len() >= old(out)@.len(),
        final(out)@.take(old(out)@.len() as int) == old(out)@,
        delta_events_ok(final(out)@.skip(old(out)@.len() as int), ds@),
{
    let ghost start = out@;
    let mut i: usize = 0;
    while i < ds.len()
        invariant
            i <= ds@.len(),
            out@.len() >= start.len(),
            out@.take(start.len() as int) == start,
            delta_events_ok(out@.skip(start.len() as int), ds@.take(i as int)),
        decreases ds.len() - i,
    {
        let d = &ds[i];
        proof {
            assert(ds@.take(i + 1).drop_last() =~= ds@.take(i as int));
            assert(ds@.take(i + 1).last() == ds@[i as int]);
        }
        match d.index {
            Some(ix) => {
                let args = match &d.arguments {
                    Some(a) => a.clone(),
                    None => String::new(),
                };
                let ghost before = out@;
                out.push(StreamEvent::ToolCallDelta {
                    index: ix as usize,
                    id: d.id.clone(),
                    function_name: d.name.clone(),
                    arguments_delta: args,
                });
                proof {
                    assert(out@.take(start.len() as int) =~= start);
                    assert(out@.skip(start.len() as int).drop_last() =~= before.skip(start.len() as int));
                }
            },
            None => {},
        }
        i = i + 1;
    }
    proof {
        assert(ds@.take(ds@.len() as int) =~= ds@);
    }
}

/// The events of one stream chunk, in order: the text delta when non-empty, the
/// tool-call deltas, `Done` with the finish reason (unknown ones read as `Stop`)
/// and the usage, and a separate `Usage` event when usage comes without a finish
/// reason.
pub fn chunk_events(f: &ChunkFields) -> (r: Vec<StreamEvent>)
    ensures
        ({
            let text_n: int = if f.has_delta && f.content is Some && f.content->Some_0@.len() > 0 { 1 } else { 0 };
            let deltas = if f.has_delta && f.tool_calls is Some { f.tool_calls->Some_0@ } else { Seq::empty() };
            let done_n: int = if f.finish_reason is Some { 1 } else { 0 };
            let usage_n: int = if f.usage is Some && f.finish_reason_unset { 1 } else { 0 };
            let d_end = r@.len() - done_n - usage_n;
            &&& r@.len() >= text_n + done_n + usage_n
            &&& text_n == 1 ==> (r@[0] matches StreamEvent::ContentDelta { delta } && Some(delta) == f.content)
            &&& delta_events_ok(r@.subrange(text_n, d_end), deltas)
            &&& done_n == 1 ==> (r@[d_end] matches StreamEvent::Done { finish_reason, usage }
                && finish_reason == (match known_finish(f.finish_reason->Some_0@) { Some(x) => x, None => FinishReason::Stop })
                && usage == (match f.usage { Some(u) => Some(chat_usage(u)), None => None }))
            &&& usage_n == 1 ==> (r@[r@.len() - 1] matches StreamEvent::Usage { usage } && usage == chat_usage(f.usage->Some_0))
        }),
{
    let mut out: Vec<StreamEvent> = Vec::new();
    if f.has_delta {
        match &f.content {
            Some(c) => {
                if !c.as_str().is_empty() {
                    out.push(StreamEvent::ContentDelta { delta: c.clone() });
                }
            },
            None => {},
        }
    }
    let text_n = out.len();
    let ghost before = out@;
    if f.has_delta {
        match &f.tool_calls {
            Some(ds) => tool_delta_events(ds, &mut out),
            None => {},
        }
    }
    let ghost mid = out@;
    proof {
        if !(f.has_delta && f.tool_calls is Some) {
            assert(out@.skip(text_n as int) =~= Seq::<StreamEvent>::empty());
        }
        assert(mid.subrange(text_n as int, mid.len() as int) =~= mid.skip(before.len() as int));
    }
    match &f.finish_reason {
        Some(s) => {
            let fr = stream_finish_reason(s.as_str());
            let usage = match &f.usage {
                Some(u) => Some(usage_of(u)),
                None => None,
            };
            out.push(StreamEvent::Done { finish_reason: fr, usage });
        },
        None => {},
    }
    match &f.usage {
        Some(u) => {
            if f.finish_reason_unset {
                out.push(StreamEvent::Usage { usage: usage_of(u) });
            }
        },
        None => {},
    }
    proof {
        assert(out@.subrange(text_n as int, mid.len() as int) =~= mid.subrange(text_n as int, mid.len() as int));
        if text_n == 1 {
            assert(out@[0] == before[0]);
        }
    }
    out
}

/// The error for a request that could not be sent: a timeout reports the
/// request's timeout in milliseconds (120000 when none was set), anything else is
/// a network error with the client's message.
pub fn send_error(is_timeout: bool, timeout: &Option<Duration>, text: String) -> (e: ProviderError)
    ensures
        is_timeout ==> (e matches ProviderError::Timeout { timeout_ms } && timeout_ms == (match timeout {
            Some(d) => duration_millis(*d) as u64,
            None => 120_000,
        })),
        !is_timeout ==> e == (ProviderError::Network { message: text, detail: None }),
{
    if is_timeout {
        let ms: u64 = match timeout {
            Some(d) => duration_as_millis(d) as u64,
            None => 120_000,
        };
        ProviderError::Timeout { timeout_ms: ms }
    } else {
        ProviderError::Network { message: text, detail: None }
    }
}

} // verus!
