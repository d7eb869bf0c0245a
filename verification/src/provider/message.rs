//! Conversation messages, tool calls and completion results.
use vstd::prelude::*;
use crate::text::{decimal, push_str, u64_to_decimal};

verus! {

#[verifier::external_type_specification]
#[verifier::external_body]
pub struct ExJsonValue(serde_json::Value);

/// `serde_json::Value::clone`, the derived deep copy: the copy is the same value.
pub assume_specification[ <serde_json::Value as Clone>::clone ](v: &serde_json::Value) -> (r: serde_json::Value)
    ensures
        r == *v,
;

/// Prompt-caching breakpoint marker (Anthropic style).
#[derive(Debug, Clone, Copy, PartialEq, Eq, Structural)]
pub enum CacheControl {
    Ephemeral,
}

/// Prompt-cache hit information. The saved cost is held as the bit pattern of the
/// `f64` number of dollars it stands for.
#[derive(Debug, Clone, Copy, PartialEq, Eq, Structural)]
pub struct CacheInfo {
    pub cached_tokens: u32,
    pub cache_saved_cost_bits: u64,
}

/// Detail level of an image.
#[derive(Debug, Clone, Copy, PartialEq, Eq, Structural)]
pub enum ImageDetail {
    Auto,
    Low,
    High,
}

/// Legacy role enumeration.
#[derive(Debug, Clone, Copy, PartialEq, Eq, Structural)]
pub enum Role {
    System,
    User,
    Assistant,
    Tool,
}

/// One piece of multimodal content.
#[derive(Debug, Clone)]
pub enum ContentPart {
    Text { text: String },
    ImageUrl { url: String, detail: Option<ImageDetail> },
    ImageBase64 { media_type: String, data: String },
    AudioBase64 { media_type: String, data: String },
    File { file_id: String, filename: Option<String> },
}

/// Content of a message.
#[derive(Debug, Clone)]
pub enum MessageContent {
    Text(String),
    MultiPart(Vec<ContentPart>),
    Empty,
}

/// A tool call made by a model.
#[derive(Debug, Clone)]
pub struct ToolCall {
    pub id: String,
    pub function_name: String,
    pub arguments: serde_json::Value,
}

/// A tool offered to a model.
#[derive(Debug, Clone)]
pub struct ToolDefinition {
    pub name: String,
    pub description: String,
    pub parameters: serde_json::Value,
    pub strict: Option<bool>,
}

/// The result of running a tool.
#[derive(Debug, Clone)]
pub struct ToolResult {
    pub tool_call_id: String,
    pub content: String,
    pub is_error: bool,
}

/// One message of a conversation.
#[derive(Debug, Clone)]
pub enum Message {
    System { content: MessageContent, cache_control: Option<CacheControl> },
    User { content: MessageContent },
    Assistant {
        content: MessageContent,
        tool_calls: Option<Vec<ToolCall>>,
        cache_control: Option<CacheControl>,
    },
    Tool { content: MessageContent, tool_call_id: String, is_error: bool },
}

impl From<String> for MessageContent {
    fn from(s: String) -> (r: Self)
        ensures
            r == MessageContent::Text(s),
    {
        MessageContent::Text(s)
    }
}

impl vstd::std_specs::convert::FromSpecImpl<String> for MessageContent {
    open spec fn obeys_from_spec() -> bool {
        true
    }

    open spec fn from_spec(v: String) -> Self {
        MessageContent::Text(v)
    }
}

impl<'a> From<&'a str> for MessageContent {
    fn from(s: &'a str) -> (r: Self)
        ensures
            r matches MessageContent::Text(t) && t@ == s@,
    {
        MessageContent::Text(s.to_string())
    }
}

impl<'a> vstd::std_specs::convert::FromSpecImpl<&'a str> for MessageContent {
    open spec fn obeys_from_spec() -> bool {
        false
    }

    open spec fn from_spec(v: &'a str) -> Self {
        MessageContent::Empty
    }
}

impl From<Vec<ContentPart>> for MessageContent {
    fn from(parts: Vec<ContentPart>) -> (r: Self)
        ensures
            r == MessageContent::MultiPart(parts),
    {
        MessageContent::MultiPart(parts)
    }
}

impl vstd::std_specs::convert::FromSpecImpl<Vec<ContentPart>> for MessageContent {
    open spec fn obeys_from_spec() -> bool {
        true
    }

    open spec fn from_spec(v: Vec<ContentPart>) -> Self {
        MessageContent::MultiPart(v)
    }
}

/// The content of any message.
pub open spec fn message_content(m: Message) -> MessageContent {
    match m {
        Message::System { content, .. } => content,
        Message::User { content } => content,
        Message::Assistant { content, .. } => content,
        Message::Tool { content, .. } => content,
    }
}

/// Role name of a message.
pub open spec fn spec_role_str(m: Message) -> Seq<char> {
    match m {
        Message::System { .. } => "system"@,
        Message::User { .. } => "user"@,
        Message::Assistant { .. } => "assistant"@,
        Message::Tool { .. } => "tool"@,
    }
}

/// How one content part reads as plain text.
pub open spec fn part_text(p: ContentPart) -> Seq<char> {
    match p {
        ContentPart::Text { text } => text@,
        ContentPart::ImageUrl { .. } => "[Image]"@,
        ContentPart::ImageBase64 { .. } => "[Image(base64)]"@,
        ContentPart::AudioBase64 { .. } => "[Audio]"@,
        ContentPart::File { filename, .. } => match filename {
            Some(name) => "[File: "@ + name@ + "]"@,
            None => "[File]"@,
        },
    }
}

/// The plain text of a list of parts, concatenated.
pub open spec fn parts_text(parts: Seq<ContentPart>) -> Seq<char>
    decreases parts.len(),
{
    if parts.len() == 0 {
        Seq::empty()
    } else {
        parts_text(parts.drop_last()) + part_text(parts.last())
    }
}

/// How a message reads as plain text.
pub open spec fn spec_display(m: Message) -> Seq<char> {
    match message_content(m) {
        MessageContent::Text(t) => t@,
        MessageContent::MultiPart(parts) => parts_text(parts@),
        MessageContent::Empty => Seq::empty(),
    }
}

fn part_display(p: &ContentPart) -> (s: String)
    ensures
        s@ == part_text(*p),
{
    match p {
        ContentPart::Text { text } => text.clone(),
        ContentPart::ImageUrl { .. } => String::from_str("[Image]"),
        ContentPart::ImageBase64 { .. } => String::from_str("[Image(base64)]"),
        ContentPart::AudioBase64 { .. } => String::from_str("[Audio]"),
        ContentPart::File { filename, .. } => match filename {
            Some(name) => {
                let mut s = String::from_str("[File: ");
                push_str(&mut s, name.as_str());
                push_str(&mut s, "]");
                s
            },
            None => String::from_str("[File]"),
        },
    }
}

impl Message {
    pub fn system(text: &str) -> (m: Self)
        ensures
            m matches Message::System { content: MessageContent::Text(t), cache_control: None } && t@ == text@,
    {
        Message::System { content: MessageContent::Text(text.to_string()), cache_control: None }
    }

    pub fn user(text: &str) -> (m: Self)
        ensures
            m matches Message::User { content: MessageContent::Text(t) } && t@ == text@,
    {
        Message::User { content: MessageContent::Text(text.to_string()) }
    }

    pub fn assistant(text: &str) -> (m: Self)
        ensures
            m matches Message::Assistant { content: MessageContent::Text(t), tool_calls: None, cache_control: None }
                && t@ == text@,
    {
        Message::Assistant {
            content: MessageContent::Text(text.to_string()),
            tool_calls: None,
            cache_control: None,
        }
    }

    pub fn tool_result(tool_call_id: &str, content: &str) -> (m: Self)
        ensures
            m matches Message::Tool { content: MessageContent::Text(t), tool_call_id: id, is_error }
                && t@ == content@ && id@ == tool_call_id@ && !is_error,
    {
        Message::Tool {
            content: MessageContent::Text(content.to_string()),
            tool_call_id: tool_call_id.to_string(),
            is_error: false,
        }
    }

    pub fn tool_error(tool_call_id: &str, error: &str) -> (m: Self)
        ensures
            m matches Message::Tool { content: MessageContent::Text(t), tool_call_id: id, is_error }
                && t@ == error@ && id@ == tool_call_id@ && is_error,
    {
        Message::Tool {
            content: MessageContent::Text(error.to_string()),
            tool_call_id: tool_call_id.to_string(),
            is_error: true,
        }
    }

    /// The role name: `system`, `user`, `assistant` or `tool`.
    pub fn role_str(&self) -> (r: &'static str)
        ensures
            r@ == spec_role_str(*self),
    {
        match self {
            Message::System { .. } => "system",
            Message::User { .. } => "user",
            Message::Assistant { .. } => "assistant",
            Message::Tool { .. } => "tool",
        }
    }

    /// The content of the message, whatever its role.
    pub fn content(&self) -> (c: &MessageContent)
        ensures
            *c == message_content(*self),
    {
        match self {
            Message::System { content, .. } => content,
            Message::User { content } => content,
            Message::Assistant { content, .. } => content,
            Message::Tool { content, .. } => content,
        }
    }

    /// The message as plain text (what its `Display` writes): the text content,
    /// or each part of a multipart content in turn, with placeholders for media.
    pub fn to_display_string(&self) -> (s: String)
        ensures
            s@ == spec_display(*self),
    {
        match self.content() {
            MessageContent::Text(t) => t.clone(),
            MessageContent::MultiPart(parts) => {
                let mut s = String::new();
                let mut i: usize = 0;
                while i < parts.len()
                    invariant
                        i <= parts@.len(),
                        s@ == parts_text(parts@.take(i as int)),
                    decreases parts.len() - i,
                {
                    proof {
                        assert(parts@.take(i + 1).drop_last() =~= parts@.take(i as int));
                    }
                    let p = part_display(&parts[i]);
                    push_str(&mut s, p.as_str());
                    i = i + 1;
                }
                proof {
                    assert(parts@.take(parts@.len() as int) =~= parts@);
                }
                s
            },
            MessageContent::Empty => String::new(),
        }
    }
}

/// Token usage of one completion.
#[derive(Debug, Clone, Copy, Default, PartialEq, Eq, Structural)]
pub struct TokenUsage {
    pub prompt_tokens: u32,
    pub completion_tokens: u32,
    pub total_tokens: u32,
    pub cached_tokens: Option<u32>,
}

impl TokenUsage {
    pub fn new(prompt_tokens: u32, completion_tokens: u32) -> (u: Self)
        requires
            prompt_tokens + completion_tokens <= u32::MAX,
        ensures
            u.prompt_tokens == prompt_tokens,
            u.completion_tokens == completion_tokens,
            u.total_tokens == prompt_tokens + completion_tokens,
            u.cached_tokens.is_none(),
    {
        TokenUsage {
            prompt_tokens,
            completion_tokens,
            total_tokens: prompt_tokens + completion_tokens,
            cached_tokens: None,
        }
    }
}

/// Why a completion ended.
#[derive(Debug, Clone, Copy, PartialEq, Eq, Structural)]
pub enum FinishReason {
    Stop,
    ToolCall,
    MaxTokens,
    ContentFilter,
}

/// One event of a streamed completion.
#[derive(Debug, Clone, PartialEq)]
pub enum StreamEvent {
    ContentDelta { delta: String },
    ToolCallDelta {
        index: usize,
        id: Option<String>,
        function_name: Option<String>,
        arguments_delta: String,
    },
    ThinkingDelta { delta: String },
    ImageDelta { media_type: String, delta: String },
    Usage { usage: TokenUsage },
    Done { finish_reason: FinishReason, usage: Option<TokenUsage> },
    Custom { event: String, data: serde_json::Value },
}

/// A finished completion.
#[derive(Debug, Clone)]
pub struct CompletionResponse {
    pub content: Option<String>,
    pub thinking: Option<String>,
    pub tool_calls: Vec<ToolCall>,
    pub usage: TokenUsage,
    pub model: String,
    pub finish_reason: FinishReason,
    pub latency_ms: u64,
    pub cache_info: Option<CacheInfo>,
}

/// Legacy streamed chunk.
#[derive(Debug, Clone)]
pub struct StreamChunk {
    pub delta: String,
    pub finish_reason: Option<String>,
    pub usage: Option<TokenUsage>,
}

/// Legacy structured response.
#[derive(Debug, Clone)]
pub struct StructuredResponse<T> {
    pub parsed: T,
    pub raw: String,
    pub usage: TokenUsage,
    pub model: String,
    pub latency_ms: u64,
}

} // verus!
