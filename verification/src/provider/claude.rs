//! The Anthropic messages API: conversations on the wire, and what responses and
//! stream events mean.
use vstd::prelude::*;
use crate::provider::message::{
    CompletionResponse, ContentPart, FinishReason, Message, MessageContent, StreamEvent, TokenUsage, ToolCall,
};
use crate::provider::openai::{count_u32, UsageFields};
use crate::provider::request::{CompletionRequest, ToolChoice};
use crate::rag::types::copy_strings;
use crate::text::{push_str, str_eq};

verus! {

/// Where an image comes from.
#[derive(Debug, Clone)]
pub enum ClaudeSource {
    Base64 { media_type: String, data: String },
    Url { url: String },
}

/// A content block as the messages API takes it.
#[derive(Debug, Clone)]
pub enum ClaudeBlock {
    /// Text, with an ephemeral cache breakpoint when `cached`.
    Text { text: String, cached: bool },
    Image(ClaudeSource),
    ToolUse { id: String, name: String, input: serde_json::Value },
    ToolResult { tool_use_id: String, content: String, is_error: bool },
}

/// The speaker of a message on the wire.
#[derive(Debug, Clone, Copy, PartialEq, Eq, Structural)]
pub enum ClaudeRole {
    User,
    Assistant,
}

#[derive(Debug, Clone)]
pub struct ClaudeMessage {
    pub role: ClaudeRole,
    pub content: Vec<ClaudeBlock>,
}

/// A conversation as the messages API takes it: the messages, the system prompt
/// as plain text when it is one, and the system blocks when there are several.
#[derive(Debug, Clone)]
pub struct ClaudeConversation {
    pub messages: Vec<ClaudeMessage>,
    pub system: Option<String>,
    pub system_blocks: Vec<ClaudeBlock>,
}

/// What a block says.
pub enum BlockView {
    Text(Seq<char>, bool),
    ImageBase64(Seq<char>, Seq<char>),
    ImageUrl(Seq<char>),
    ToolUse(Seq<char>, Seq<char>, serde_json::Value),
    ToolResult(Seq<char>, Seq<char>, bool),
}

pub open spec fn block_view(b: ClaudeBlock) -> BlockView {
    match b {
        ClaudeBlock::Text { text, cached } => BlockView::Text(text@, cached),
        ClaudeBlock::Image(ClaudeSource::Base64 { media_type, data }) => BlockView::ImageBase64(media_type@, data@),
        ClaudeBlock::Image(ClaudeSource::Url { url }) => BlockView::ImageUrl(url@),
        ClaudeBlock::ToolUse { id, name, input } => BlockView::ToolUse(id@, name@, input),
        ClaudeBlock::ToolResult { tool_use_id, content, is_error } => BlockView::ToolResult(tool_use_id@, content@, is_error),
    }
}

pub open spec fn blocks_view(bs: Seq<ClaudeBlock>) -> Seq<BlockView> {
    bs.map_values(|b: ClaudeBlock| block_view(b))
}

pub open spec fn messages_view(ms: Seq<ClaudeMessage>) -> Seq<(ClaudeRole, Seq<BlockView>)> {
    ms.map_values(|m: ClaudeMessage| (m.role, blocks_view(m.content@)))
}

/// A part of a user or assistant message as a block: text and images; audio and
/// files have no block.
pub open spec fn user_part(p: ContentPart) -> Option<BlockView> {
    match p {
        ContentPart::Text { text } => Some(BlockView::Text(text@, false)),
        ContentPart::ImageUrl { url, .. } => Some(BlockView::ImageUrl(url@)),
        ContentPart::ImageBase64 { media_type, data } => Some(BlockView::ImageBase64(media_type@, data@)),
        _ => None,
    }
}

/// A part of a system message as a block: text (cached with the message) and
/// base64 images; other parts are left out.
pub open spec fn system_part(p: ContentPart, cached: bool) -> Option<BlockView> {
    match p {
        ContentPart::Text { text } => Some(BlockView::Text(text@, cached)),
        ContentPart::ImageBase64 { media_type, data } => Some(BlockView::ImageBase64(media_type@, data@)),
        _ => None,
    }
}

pub open spec fn opt_seq(o: Option<BlockView>) -> Seq<BlockView> {
    match o {
        Some(b) => seq![b],
        None => Seq::empty(),
    }
}

pub open spec fn user_parts(ps: Seq<ContentPart>) -> Seq<BlockView>
    decreases ps.len(),
{
    if ps.len() == 0 { Seq::empty() } else { user_parts(ps.drop_last()) + opt_seq(user_part(ps.last())) }
}

pub open spec fn system_parts(ps: Seq<ContentPart>, cached: bool) -> Seq<BlockView>
    decreases ps.len(),
{
    if ps.len() == 0 { Seq::empty() } else { system_parts(ps.drop_last(), cached) + opt_seq(system_part(ps.last(), cached)) }
}

/// The blocks of a message's content; plain text carries the cache flag.
pub open spec fn content_blocks(c: MessageContent, cached: bool) -> Seq<BlockView> {
    match c {
        MessageContent::Text(t) => seq![BlockView::Text(t@, cached)],
        MessageContent::MultiPart(ps) => user_parts(ps@),
        MessageContent::Empty => Seq::empty(),
    }
}

pub open spec fn tool_use_blocks(calls: Seq<ToolCall>) -> Seq<BlockView> {
    calls.map_values(|c: ToolCall| BlockView::ToolUse(c.id@, c.function_name@, c.arguments))
}

/// Conversion state: the messages so far, the plain system text, the system blocks.
pub open spec fn convert_step(
    st: (Seq<(ClaudeRole, Seq<BlockView>)>, Option<Seq<char>>, Seq<BlockView>),
    m: Message,
) -> (Seq<(ClaudeRole, Seq<BlockView>)>, Option<Seq<char>>, Seq<BlockView>) {
    let (msgs, sys, blocks) = st;
    match m {
        Message::System { content, cache_control } => match content {
            MessageContent::Text(t) => if cache_control is Some {
                (msgs, sys, blocks.push(BlockView::Text(t@, true)))
            } else {
                (msgs, Some(t@), blocks)
            },
            MessageContent::MultiPart(ps) => (msgs, sys, blocks + system_parts(ps@, cache_control is Some)),
            MessageContent::Empty => (msgs, sys, blocks),
        },
        Message::User { content } => (msgs.push((ClaudeRole::User, content_blocks(content, false))), sys, blocks),
        Message::Assistant { content, tool_calls, cache_control } => {
            let uses = match tool_calls {
                Some(cs) => tool_use_blocks(cs@),
                None => Seq::empty(),
            };
            let rest = if content is Empty { Seq::empty() } else { content_blocks(content, cache_control is Some) };
            (msgs.push((ClaudeRole::Assistant, uses + rest)), sys, blocks)
        },
        Message::Tool { content, tool_call_id, is_error } => {
            let text = match content {
                MessageContent::Text(t) => t@,
                _ => Seq::empty(),
            };
            (msgs.push((ClaudeRole::User, seq![BlockView::ToolResult(tool_call_id@, text, is_error)])), sys, blocks)
        },
    }
}

pub open spec fn convert_state(ms: Seq<Message>) -> (Seq<(ClaudeRole, Seq<BlockView>)>, Option<Seq<char>>, Seq<BlockView>)
    decreases ms.len(),
{
    if ms.len() == 0 {
        (Seq::empty(), None, Seq::empty())
    } else {
        convert_step(convert_state(ms.drop_last()), ms.last())
    }
}

/// The system prompt sent as text: the plain system text when there are no
/// system blocks, the text of the only block when there is one, none otherwise.
pub open spec fn system_text(sys: Option<Seq<char>>, blocks: Seq<BlockView>) -> Option<Seq<char>> {
    if blocks.len() == 0 {
        sys
    } else if blocks.len() == 1 {
        match blocks[0] {
            BlockView::Text(t, _) => Some(t),
            _ => None,
        }
    } else {
        None
    }
}

fn user_block(p: &ContentPart) -> (r: Option<ClaudeBlock>)
    ensures
        match r { Some(b) => user_part(*p) == Some(block_view(b)), None => user_part(*p) is None },
{
    match p {
        ContentPart::Text { text } => Some(ClaudeBlock::Text { text: text.clone(), cached: false }),
        ContentPart::ImageUrl { url, .. } => Some(ClaudeBlock::Image(ClaudeSource::Url { url: url.clone() })),
        ContentPart::ImageBase64 { media_type, data } => Some(
            ClaudeBlock::Image(ClaudeSource::Base64 { media_type: media_type.clone(), data: data.clone() }),
        ),
        _ => None,
    }
}

fn system_block(p: &ContentPart, cached: bool) -> (r: Option<ClaudeBlock>)
    ensures
        match r { Some(b) => system_part(*p, cached) == Some(block_view(b)), None => system_part(*p, cached) is None },
{
    match p {
        ContentPart::Text { text } => Some(ClaudeBlock::Text { text: text.clone(), cached }),
        ContentPart::ImageBase64 { media_type, data } => Some(
            ClaudeBlock::Image(ClaudeSource::Base64 { media_type: media_type.clone(), data: data.clone() }),
        ),
        _ => None,
    }
}

/// Appends the blocks of `parts` (system parts when `system`).
fn push_parts(parts: &Vec<ContentPart>, system: bool, cached: bool, out: &mut Vec<ClaudeBlock>)
    ensures
        blocks_view(final(out)@) == blocks_view(old(out)@) + (if system { system_parts(parts@, cached) } else {
            user_parts(parts@)
        }),
{
    let ghost start = blocks_view(out@);
    let mut i: usize = 0;
    while i < parts.len()
        invariant
            i <= parts@.len(),
            blocks_view(out@) == start + (if system { system_parts(parts@.take(i as int), cached) } else {
                user_parts(parts@.take(i as int))
            }),
        decreases parts.len() - i,
    {
        proof {
            assert(parts@.take(i + 1).drop_last() =~= parts@.take(i as int));
            assert(parts@.take(i + 1).last() == parts@[i as int]);
        }
        let b = if system { system_block(&parts[i], cached) } else { user_block(&parts[i]) };
        let ghost before = out@;
        match b {
            Some(b) => {
                out.push(b);
                proof {
                    assert(blocks_view(out@) =~= blocks_view(before).push(block_view(b)));
                }
            },
            None => {},
        }
        proof {
            if system {
                assert(blocks_view(out@) =~= start + system_parts(parts@.take(i + 1), cached));
            } else {
                assert(blocks_view(out@) =~= start + user_parts(parts@.take(i + 1)));
            }
        }
        i = i + 1;
    }
    proof {
        assert(parts@.take(parts@.len() as int) =~= parts@);
    }
}

/// The blocks of a message's content (`cached` marks plain text).
pub fn convert_content(content: &MessageContent, cached: bool) -> (r: Vec<ClaudeBlock>)
    ensures
        blocks_view(r@) == content_blocks(*content, cached),
{
    let mut out: Vec<ClaudeBlock> = Vec::new();
    match content {
        MessageContent::Text(t) => {
            out.push(ClaudeBlock::Text { text: t.clone(), cached });
            proof {
                assert(blocks_view(out@) =~= seq![BlockView::Text(t@, cached)]);
            }
        },
        MessageContent::MultiPart(parts) => {
            proof {
                assert(blocks_view(out@) =~= Seq::<BlockView>::empty());
            }
            push_parts(parts, false, false, &mut out);
            proof {
                assert(blocks_view(out@) =~= user_parts(parts@));
            }
        },
        MessageContent::Empty => {
            proof {
                assert(blocks_view(out@) =~= Seq::<BlockView>::empty());
            }
        },
    }
    out
}

/// A conversation as the messages API takes it (see [`convert_step`] and
/// [`system_text`]). Tool inputs are the calls' arguments.
pub fn convert_messages(messages: &[Message]) -> (r: ClaudeConversation)
    ensures
        ({
            let (msgs, sys, blocks) = convert_state(messages@);
            &&& messages_view(r.messages@) == msgs
            &&& (match r.system { Some(s) => Some(s@), None => None }) == system_text(sys, blocks)
            &&& blocks_view(r.system_blocks@) == (if blocks.len() > 1 { blocks } else { Seq::empty() })
        }),
{
    let mut msgs: Vec<ClaudeMessage> = Vec::new();
    let mut sys: Option<String> = None;
    let mut blocks: Vec<ClaudeBlock> = Vec::new();
    let mut i: usize = 0;
    while i < messages.len()
        invariant
            i <= messages@.len(),
            convert_state(messages@.take(i as int)) == (
                messages_view(msgs@),
                match sys { Some(s) => Some(s@), None => None },
                blocks_view(blocks@),
            ),
        decreases messages.len() - i,
    {
        proof {
            assert(messages@.take(i + 1).drop_last() =~= messages@.take(i as int));
            assert(messages@.take(i + 1).last() == messages@[i as int]);
        }
        let ghost before_msgs = msgs@;
        let ghost before_blocks = blocks@;
        match &messages[i] {
            Message::System { content, cache_control } => match content {
                MessageContent::Text(t) => {
                    if cache_control.is_some() {
                        blocks.push(ClaudeBlock::Text { text: t.clone(), cached: true });
                        proof {
                            assert(blocks_view(blocks@) =~= blocks_view(before_blocks).push(BlockView::Text(t@, true)));
                        }
                    } else {
                        sys = Some(t.clone());
                    }
                },
                MessageContent::MultiPart(parts) => {
                    push_parts(parts, true, cache_control.is_some(), &mut blocks);
                },
                MessageContent::Empty => {},
            },
            Message::User { content } => {
                let c = convert_content(content, false);
                msgs.push(ClaudeMessage { role: ClaudeRole::User, content: c });
                proof {
                    assert(messages_view(msgs@) =~= messages_view(before_msgs).push((ClaudeRole::User, blocks_view(c@))));
                }
            },
            Message::Assistant { content, tool_calls, cache_control } => {
                let mut c: Vec<ClaudeBlock> = Vec::new();
                match tool_calls {
                    Some(calls) => {
                        let mut k: usize = 0;
                        while k < calls.len()
                            invariant
                                k <= calls@.len(),
                                blocks_view(c@) == tool_use_blocks(calls@.take(k as int)),
                            decreases calls.len() - k,
                        {
                            let call = &calls[k];
                            let ghost bc = c@;
                            c.push(ClaudeBlock::ToolUse {
                                id: call.id.clone(),
                                name: call.function_name.clone(),
                                input: call.arguments.clone(),
                            });
                            proof {
                                assert(blocks_view(c@) =~= blocks_view(bc).push(BlockView::ToolUse(call.id@, call.function_name@, call.arguments)));
                                assert(tool_use_blocks(calls@.take(k + 1)) =~= tool_use_blocks(calls@.take(k as int)).push(
                                    BlockView::ToolUse(call.id@, call.function_name@, call.arguments)));
                            }
                            k = k + 1;
                        }
                        proof {
                            assert(calls@.take(calls@.len() as int) =~= calls@);
                        }
                    },
                    None => {
                        proof {
                            assert(blocks_view(c@) =~= Seq::<BlockView>::empty());
                        }
                    },
                }
                let ghost uses = blocks_view(c@);
                match content {
                    MessageContent::Empty => {
                        proof {
                            assert(uses + Seq::<BlockView>::empty() =~= uses);
                        }
                    },
                    _ => {
                        let rest = convert_content(content, cache_control.is_some());
                        let mut k: usize = 0;
                        let mut rest = rest;
                        let ghost rv = blocks_view(rest@);
                        c.append(&mut rest);
                        proof {
                            assert(blocks_view(c@) =~= uses + rv);
                        }
                    },
                }
                let ghost cv = blocks_view(c@);
                msgs.push(ClaudeMessage { role: ClaudeRole::Assistant, content: c });
                proof {
                    assert(messages_view(msgs@) =~= messages_view(before_msgs).push((ClaudeRole::Assistant, cv)));
                }
            },
            Message::Tool { content, tool_call_id, is_error } => {
                let text = match content {
                    MessageContent::Text(t) => t.clone(),
                    _ => String::new(),
                };
                let mut c: Vec<ClaudeBlock> = Vec::new();
                c.push(ClaudeBlock::ToolResult { tool_use_id: tool_call_id.clone(), content: text, is_error: *is_error });
                let ghost cv = blocks_view(c@);
                proof {
                    assert(cv =~= seq![BlockView::ToolResult(tool_call_id@, text@, *is_error)]);
                }
                msgs.push(ClaudeMessage { role: ClaudeRole::User, content: c });
                proof {
                    assert(messages_view(msgs@) =~= messages_view(before_msgs).push((ClaudeRole::User, cv)));
                }
            },
        }
        i = i + 1;
    }
    proof {
        assert(messages@.take(messages@.len() as int) =~= messages@);
    }
    let system = if blocks.len() == 0 {
        sys
    } else if blocks.len() == 1 {
        match &blocks[0] {
            ClaudeBlock::Text { text, .. } => Some(text.clone()),
            _ => None,
        }
    } else {
        None
    };
    let system_blocks = if blocks.len() > 1 { blocks } else { Vec::new() };
    proof {
        if !(blocks@.len() > 1) {
            assert(blocks_view(system_blocks@) =~= Seq::<BlockView>::empty());
        }
    }
    ClaudeConversation { messages: msgs, system, system_blocks }
}

/// A stop reason of the messages API as a finish reason; unknown ones read as `Stop`.
pub open spec fn claude_finish(s: Seq<char>) -> FinishReason {
    if s == "tool_use"@ {
        FinishReason::ToolCall
    } else if s == "max_tokens"@ {
        FinishReason::MaxTokens
    } else {
        FinishReason::Stop
    }
}

pub fn parse_finish_reason(reason: &str) -> (r: FinishReason)
    ensures
        r == claude_finish(reason@),
{
    if str_eq(reason, "tool_use") {
        FinishReason::ToolCall
    } else if str_eq(reason, "max_tokens") {
        FinishReason::MaxTokens
    } else {
        FinishReason::Stop
    }
}

/// A content block of a response, as far as its type says: text (with its text
/// when it is a string), a tool use (id and name when strings, and the input),
/// or anything else.
#[derive(Debug, Clone)]
pub enum ResponseBlockFields {
    Text(Option<String>),
    ToolUse { id: Option<String>, name: Option<String>, input: serde_json::Value },
    Other,
}

/// What a complete response holds: its content blocks, model, usage (`None` when
/// not an object), cache-read tokens and stop reason.
#[derive(Debug, Clone)]
pub struct ClaudeResponseFields {
    pub blocks: Vec<ResponseBlockFields>,
    pub model: Option<String>,
    pub usage: Option<UsageFields>,
    pub cache_read_tokens: Option<u64>,
    pub stop_reason: Option<String>,
}

/// The text of the text blocks, concatenated.
pub open spec fn response_text(bs: Seq<ResponseBlockFields>) -> Seq<char>
    decreases bs.len(),
{
    if bs.len() == 0 {
        Seq::empty()
    } else {
        response_text(bs.drop_last()) + match bs.last() {
            ResponseBlockFields::Text(Some(t)) => t@,
            _ => Seq::empty(),
        }
    }
}

/// The tool uses, as (id, name, input) with missing id and name empty.
pub open spec fn response_calls(bs: Seq<ResponseBlockFields>) -> Seq<(Seq<char>, Seq<char>, serde_json::Value)>
    decreases bs.len(),
{
    if bs.len() == 0 {
        Seq::empty()
    } else {
        response_calls(bs.drop_last()) + match bs.last() {
            ResponseBlockFields::ToolUse { id, name, input } => seq![(
                match id { Some(v) => v@, None => Seq::empty() },
                match name { Some(v) => v@, None => Seq::empty() },
                input,
            )],
            _ => Seq::empty(),
        }
    }
}

/// The usage of a response: input and output tokens (missing ones 0) and their
/// sum, with the cache-read tokens; all zero when no usage was reported.
pub open spec fn claude_usage(u: Option<UsageFields>, cached: Option<u64>) -> TokenUsage {
    match u {
        Some(f) => TokenUsage {
            prompt_tokens: count_u32(f.prompt_tokens),
            completion_tokens: count_u32(f.completion_tokens),
            total_tokens: (count_u32(f.prompt_tokens) + count_u32(f.completion_tokens)) as u32,
            cached_tokens: match cached { Some(v) => Some(v as u32), None => None },
        },
        None => TokenUsage { prompt_tokens: 0, completion_tokens: 0, total_tokens: 0, cached_tokens: None },
    }
}

/// The completion a response stands for, before any cache cost is reckoned: the
/// concatenated text (none when empty), the tool uses, the model (`fallback_model`
/// when absent), the usage and the finish reason (`end_turn` when absent).
pub fn claude_response(f: ClaudeResponseFields, fallback_model: &str, latency_ms: u64) -> (r: CompletionResponse)
    requires
        f.usage matches Some(u) ==> count_u32(u.prompt_tokens) + count_u32(u.completion_tokens) <= u32::MAX,
    ensures
        r.content is None <==> response_text(f.blocks@).len() == 0,
        r.content matches Some(c) ==> c@ == response_text(f.blocks@),
        r.thinking is None,
        r.tool_calls@.map_values(|c: ToolCall| (c.id@, c.function_name@, c.arguments)) == response_calls(f.blocks@),
        r.model@ == (match f.model { Some(m) => m@, None => fallback_model@ }),
        r.usage == claude_usage(f.usage, f.cache_read_tokens),
        r.finish_reason == (match f.stop_reason { Some(s) => claude_finish(s@), None => FinishReason::Stop }),
        r.latency_ms == latency_ms,
        r.cache_info is None,
{
    let mut text = String::new();
    let mut calls: Vec<ToolCall> = Vec::new();
    let mut i: usize = 0;
    while i < f.blocks.len()
        invariant
            i <= f.blocks@.len(),
            text@ == response_text(f.blocks@.take(i as int)),
            calls@.map_values(|c: ToolCall| (c.id@, c.function_name@, c.arguments)) == response_calls(f.blocks@.take(i as int)),
        decreases f.blocks.len() - i,
    {
        proof {
            assert(f.blocks@.take(i + 1).drop_last() =~= f.blocks@.take(i as int));
            assert(f.blocks@.take(i + 1).last() == f.blocks@[i as int]);
        }
        let ghost before = calls@;
        match &f.blocks[i] {
            ResponseBlockFields::Text(Some(t)) => push_str(&mut text, t.as_str()),
            ResponseBlockFields::ToolUse { id, name, input } => {
                let id = match id {
                    Some(v) => v.clone(),
                    None => String::new(),
                };
                let name = match name {
                    Some(v) => v.clone(),
                    None => String::new(),
                };
                calls.push(ToolCall { id, function_name: name, arguments: input.clone() });
                proof {
                    assert(calls@.map_values(|c: ToolCall| (c.id@, c.function_name@, c.arguments)) =~= before.map_values(
                        |c: ToolCall| (c.id@, c.function_name@, c.arguments)).push((id@, name@, *input)));
                }
            },
            _ => {},
        }
        proof {
            assert(text@ =~= response_text(f.blocks@.take(i + 1)));
            assert(calls@.map_values(|c: ToolCall| (c.id@, c.function_name@, c.arguments)) =~= response_calls(f.blocks@.take(i + 1)));
        }
        i = i + 1;
    }
    proof {
        assert(f.blocks@.take(f.blocks@.len() as int) =~= f.blocks@);
    }
    let model = match &f.model {
        Some(m) => m.clone(),
        None => String::from_str(fallback_model),
    };
    let cached: Option<u32> = match f.cache_read_tokens {
        Some(v) => Some(v as u32),
        None => None,
    };
    let usage = match &f.usage {
        Some(u) => {
            let p: u32 = match u.prompt_tokens {
                Some(v) => v as u32,
                None => 0,
            };
            let c: u32 = match u.completion_tokens {
                Some(v) => v as u32,
                None => 0,
            };
            TokenUsage { prompt_tokens: p, completion_tokens: c, total_tokens: p + c, cached_tokens: cached }
        },
        None => TokenUsage::new(0, 0),
    };
    let finish_reason = match &f.stop_reason {
        Some(s) => parse_finish_reason(s.as_str()),
        None => FinishReason::Stop,
    };
    let content = if text.as_str().is_empty() { None } else { Some(text) };
    CompletionResponse {
        content,
        thinking: None,
        tool_calls: calls,
        usage,
        model,
        finish_reason,
        latency_ms,
        cache_info: None,
    }
}

/// What one stream event holds, by its type.
#[derive(Debug, Clone)]
pub enum ClaudeEventFields {
    /// `content_block_start` with an object `content_block`: the event's index
    /// (the position of the block), whether the block is a tool use, its id and
    /// name.
    BlockStart { index: Option<u64>, is_tool_use: bool, id: Option<String>, name: Option<String> },
    /// `content_block_delta`: the index, whether `delta` is an object, and its
    /// text or partial JSON.
    BlockDelta { index: Option<u64>, delta_is_object: bool, text: Option<String>, partial_json: Option<String> },
    /// `message_delta`: whether `delta` is an object, its stop reason, the usage
    /// counts (all `None` when absent), and whether the usage is an object.
    MessageDelta {
        delta_is_object: bool,
        stop_reason: Option<String>,
        usage: UsageFields,
        usage_is_object: bool,
    },
    Other,
}

/// The sum of two token counts as the event reports them.
pub open spec fn count_sum_fits(u: UsageFields) -> bool {
    count_u32(u.prompt_tokens) + count_u32(u.completion_tokens) <= u32::MAX
}

/// The events one stream event stands for (none or one).
pub open spec fn claude_event_ok(r: Seq<StreamEvent>, f: ClaudeEventFields) -> bool {
    match f {
        ClaudeEventFields::BlockStart { index, is_tool_use, id, name } => if index is Some && is_tool_use {
            r.len() == 1 && (r[0] matches StreamEvent::ToolCallDelta { index: ix, id: i2, function_name, arguments_delta }
                && ix == index->Some_0 as usize && i2 == id && function_name == name && arguments_delta@.len() == 0)
        } else {
            r.len() == 0
        },
        ClaudeEventFields::BlockDelta { index, text, partial_json, .. } => if index is None {
            r.len() == 0
        } else if text is Some {
            r.len() == 1 && (r[0] matches StreamEvent::ContentDelta { delta } && Some(delta) == text)
        } else if partial_json is Some {
            r.len() == 1 && (r[0] matches StreamEvent::ToolCallDelta { index: ix, id, function_name, arguments_delta }
                && ix == index->Some_0 as usize && id is None && function_name is None
                && Some(arguments_delta) == partial_json)
        } else {
            r.len() == 0
        },
        ClaudeEventFields::MessageDelta { delta_is_object, stop_reason, usage, usage_is_object } => if delta_is_object {
            if stop_reason is Some {
                r.len() == 1 && (r[0] matches StreamEvent::Done { finish_reason, usage: u }
                    && finish_reason == claude_finish(stop_reason->Some_0@)
                    && u == (if usage.prompt_tokens is Some && usage.completion_tokens is Some {
                        Some(TokenUsage {
                            prompt_tokens: count_u32(usage.prompt_tokens),
                            completion_tokens: count_u32(usage.completion_tokens),
                            total_tokens: (count_u32(usage.prompt_tokens) + count_u32(usage.completion_tokens)) as u32,
                            cached_tokens: match usage.cached_tokens { Some(v) => Some(v as u32), None => None },
                        })
                    } else {
                        None
                    }))
            } else {
                r.len() == 0
            }
        } else if usage_is_object {
            r.len() == 1 && (r[0] matches StreamEvent::Usage { usage: u } && u == (TokenUsage {
                prompt_tokens: count_u32(usage.prompt_tokens),
                completion_tokens: count_u32(usage.completion_tokens),
                total_tokens: (count_u32(usage.prompt_tokens) + count_u32(usage.completion_tokens)) as u32,
                cached_tokens: match usage.cached_tokens { Some(v) => Some(v as u32), None => None },
            }))
        } else {
            r.len() == 0
        },
        ClaudeEventFields::Other => r.len() == 0,
    }
}

fn count_of(c: Option<u64>) -> (r: u32)
    ensures
        r == count_u32(c),
{
    match c {
        Some(v) => v as u32,
        None => 0,
    }
}

/// The stream events one server event stands for. A block delta with an index
/// must have an object `delta`; token counts must add up within `u32`.
pub fn claude_event(f: &ClaudeEventFields) -> (r: Vec<StreamEvent>)
    requires
        *f matches ClaudeEventFields::BlockDelta { index, delta_is_object, .. } ==> (index is Some ==> delta_is_object),
        *f matches ClaudeEventFields::MessageDelta { usage, .. } ==> count_sum_fits(usage),
    ensures
        claude_event_ok(r@, *f),
{
    let mut out: Vec<StreamEvent> = Vec::new();
    match f {
        ClaudeEventFields::BlockStart { index, is_tool_use, id, name } => {
            match index {
                Some(ix) => {
                    if *is_tool_use {
                        out.push(StreamEvent::ToolCallDelta {
                            index: *ix as usize,
                            id: id.clone(),
                            function_name: name.clone(),
                            arguments_delta: String::new(),
                        });
                    }
                },
                None => {},
            }
        },
        ClaudeEventFields::BlockDelta { index, text, partial_json, .. } => {
            match index {
                Some(ix) => {
                    match text {
                        Some(t) => out.push(StreamEvent::ContentDelta { delta: t.clone() }),
                        None => match partial_json {
                            Some(p) => out.push(StreamEvent::ToolCallDelta {
                                index: *ix as usize,
                                id: None,
                                function_name: None,
                                arguments_delta: p.clone(),
                            }),
                            None => {},
                        },
                    }
                },
                None => {},
            }
        },
        ClaudeEventFields::MessageDelta { delta_is_object, stop_reason, usage, usage_is_object } => {
            let cached: Option<u32> = match usage.cached_tokens {
                Some(v) => Some(v as u32),
                None => None,
            };
            if *delta_is_object {
                match stop_reason {
                    Some(s) => {
                        let fr = parse_finish_reason(s.as_str());
                        let u = match (usage.prompt_tokens, usage.completion_tokens) {
                            (Some(p), Some(c)) => {
                                let p = p as u32;
                                let c = c as u32;
                                Some(TokenUsage { prompt_tokens: p, completion_tokens: c, total_tokens: p + c, cached_tokens: cached })
                            },
                            _ => None,
                        };
                        out.push(StreamEvent::Done { finish_reason: fr, usage: u });
                    },
                    None => {},
                }
            } else if *usage_is_object {
                let p = count_of(usage.prompt_tokens);
                let c = count_of(usage.completion_tokens);
                out.push(StreamEvent::Usage {
                    usage: TokenUsage { prompt_tokens: p, completion_tokens: c, total_tokens: p + c, cached_tokens: cached },
                });
            }
        },
        ClaudeEventFields::Other => {},
    }
    out
}


/// How the messages API is told to use tools.
#[derive(Debug, Clone)]
pub enum ClaudeToolChoice {
    /// `"auto"`
    Auto,
    /// `"any"`
    Any,
    /// `{"type": "tool", "name": ..}`
    Tool(String),
}

/// The system prompt of a request body: plain text, or blocks.
#[derive(Debug, Clone)]
pub enum ClaudeSystem {
    Text(String),
    Blocks(Vec<ClaudeBlock>),
}

/// A messages request body, tools aside (they go on the wire as the request
/// defines them).
#[derive(Debug, Clone)]
pub struct ClaudeBody {
    pub model: Option<String>,
    pub messages: Vec<ClaudeMessage>,
    pub max_tokens: usize,
    pub stream: bool,
    pub temperature_bits: Option<u32>,
    pub top_p_bits: Option<u32>,
    pub system: Option<ClaudeSystem>,
    pub stop_sequences: Option<Vec<String>>,
    pub tool_choice: Option<ClaudeToolChoice>,
}

/// The wire form of a tool choice: automatic and disabled both as `auto`,
/// required as `any`, a named tool as that tool.
pub fn claude_tool_choice(tc: &ToolChoice) -> (r: ClaudeToolChoice)
    ensures
        match *tc {
            ToolChoice::Auto | ToolChoice::Disabled => r is Auto,
            ToolChoice::Required => r is Any,
            ToolChoice::Specific { name } => r matches ClaudeToolChoice::Tool(n) && n@ == name@,
        },
{
    match tc {
        ToolChoice::Auto => ClaudeToolChoice::Auto,
        ToolChoice::Required => ClaudeToolChoice::Any,
        ToolChoice::Disabled => ClaudeToolChoice::Auto,
        ToolChoice::Specific { name } => ClaudeToolChoice::Tool(name.clone()),
    }
}

/// The body of a messages request: the converted conversation, at most 4096
/// output tokens unless the request says otherwise, the sampling settings, the
/// system prompt as text when there is one and as blocks when there are
/// several; a streamed body carries no stop sequences and no tool choice.
pub fn build_claude_body(conv: ClaudeConversation, request: &CompletionRequest, stream: bool) -> (b: ClaudeBody)
    ensures
        b.model == request.model,
        b.messages@ == conv.messages@,
        b.max_tokens == (match request.max_tokens { Some(n) => n, None => 4096 }),
        b.stream == stream,
        b.temperature_bits == request.temperature_bits,
        b.top_p_bits == request.top_p_bits,
        conv.system matches Some(s) ==> (b.system matches Some(ClaudeSystem::Text(t)) && t == s),
        conv.system is None && conv.system_blocks@.len() > 0
            ==> (b.system matches Some(ClaudeSystem::Blocks(bs)) && bs@ == conv.system_blocks@),
        conv.system is None && conv.system_blocks@.len() == 0 ==> b.system is None,
        stream || request.stop is None ==> b.stop_sequences is None,
        !stream && request.stop is Some ==> (b.stop_sequences matches Some(st) && st@ == request.stop->0@),
        stream || request.tool_choice is None ==> b.tool_choice is None,
        !stream && request.tool_choice is Some ==> (b.tool_choice matches Some(c) && match request.tool_choice->0 {
            ToolChoice::Auto | ToolChoice::Disabled => c is Auto,
            ToolChoice::Required => c is Any,
            ToolChoice::Specific { name } => c matches ClaudeToolChoice::Tool(n) && n@ == name@,
        }),
{
    let system = match conv.system {
        Some(s) => Some(ClaudeSystem::Text(s)),
        None => if conv.system_blocks.len() > 0 { Some(ClaudeSystem::Blocks(conv.system_blocks)) } else { None },
    };
    let stop_sequences = if stream {
        None
    } else {
        match &request.stop {
            Some(st) => Some(copy_strings(st)),
            None => None,
        }
    };
    let tool_choice = if stream {
        None
    } else {
        match &request.tool_choice {
            Some(tc) => Some(claude_tool_choice(tc)),
            None => None,
        }
    };
    ClaudeBody {
        model: request.model.clone(),
        messages: conv.messages,
        max_tokens: match request.max_tokens {
            Some(n) => n,
            None => 4096,
        },
        stream,
        temperature_bits: request.temperature_bits,
        top_p_bits: request.top_p_bits,
        system,
        stop_sequences,
        tool_choice,
    }
}


/// Whether a part has a block of its own in a user message: text and images.
pub open spec fn is_block_part(p: ContentPart) -> bool {
    p is Text || p is ImageUrl || p is ImageBase64
}

/// How many parts of `ps` have a block of their own.
pub open spec fn block_part_count(ps: Seq<ContentPart>) -> nat
    decreases ps.len(),
{
    if ps.len() == 0 {
        0
    } else {
        block_part_count(ps.drop_last()) + if is_block_part(ps.last()) { 1nat } else { 0nat }
    }
}

/// The block that part `p` stands for sits at `at` in `bs`.
pub open spec fn part_block_at(bs: Seq<BlockView>, p: ContentPart, at: int) -> bool {
    match p {
        ContentPart::Text { text } => bs[at] == BlockView::Text(text@, false),
        ContentPart::ImageUrl { url, .. } => bs[at] == BlockView::ImageUrl(url@),
        ContentPart::ImageBase64 { media_type, data } => bs[at] == BlockView::ImageBase64(media_type@, data@),
        _ => true,
    }
}

proof fn lemma_user_parts_blocks(ps: Seq<ContentPart>)
    ensures
        user_parts(ps).len() == block_part_count(ps),
        forall|k: int| 0 <= k < ps.len() ==>
            part_block_at(user_parts(ps), #[trigger] ps[k], block_part_count(ps.take(k)) as int),
    decreases ps.len(),
{
    if ps.len() > 0 {
        let d = ps.drop_last();
        lemma_user_parts_blocks(d);
        let bs = user_parts(ps);
        assert(bs == user_parts(d) + opt_seq(user_part(ps.last())));
        assert forall|k: int| 0 <= k < ps.len() implies
            part_block_at(bs, #[trigger] ps[k], block_part_count(ps.take(k)) as int) by {
            if k < d.len() {
                assert(ps.take(k) =~= d.take(k));
                assert(d[k] == ps[k]);
                assert(part_block_at(user_parts(d), d[k], block_part_count(d.take(k)) as int));
                lemma_block_part_count_le(d, k);
            } else {
                assert(ps.take(k) =~= d);
            }
        }
    }
}

proof fn lemma_block_part_count_le(ps: Seq<ContentPart>, k: int)
    requires
        0 <= k < ps.len(),
    ensures
        is_block_part(ps[k]) ==> block_part_count(ps.take(k)) < block_part_count(ps),
    decreases ps.len(),
{
    let d = ps.drop_last();
    if k < d.len() {
        assert(ps.take(k) =~= d.take(k));
        assert(d[k] == ps[k]);
        lemma_block_part_count_le(d, k);
    } else {
        assert(ps.take(k) =~= d);
    }
}

/// Law: a multi-part user message loses no text or image. Its blocks are exactly
/// one per text, image-URL and base64-image part, in the order of the parts: the
/// part at `k` gives the block after those of the parts before it, a text block
/// with that text, an image block with that URL source, or an image block with
/// that media type and data. Audio and file parts give no block.
pub proof fn law_multipart_blocks(parts: Vec<ContentPart>, cached: bool)
    ensures
        content_blocks(MessageContent::MultiPart(parts), cached).len() == block_part_count(parts@),
        forall|k: int| 0 <= k < parts@.len() ==>
            part_block_at(
                content_blocks(MessageContent::MultiPart(parts), cached),
                #[trigger] parts@[k],
                block_part_count(parts@.take(k)) as int,
            ),
{
    lemma_user_parts_blocks(parts@);
}

} // verus!
