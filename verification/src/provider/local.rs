//! Local model servers (Ollama, llama.cpp): the prompt format, the request body,
//! and what responses and streamed lines mean.
use vstd::prelude::*;
use crate::provider::message::{
    message_content, spec_role_str, CompletionResponse, FinishReason, Message, MessageContent, StreamEvent, TokenUsage,
};
use crate::provider::openai::count_u32;
use crate::provider::request::CompletionRequest;
use crate::rag::request::SEVEN_TENTHS_BITS;
use crate::text::push_str;

verus! {

/// The text a message contributes to a prompt: its text, a placeholder for
/// multimodal content, or nothing.
pub open spec fn prompt_content(m: Message) -> Seq<char> {
    match message_content(m) {
        MessageContent::Text(t) => t@,
        MessageContent::MultiPart(_) => "[multimodal content]"@,
        MessageContent::Empty => Seq::empty(),
    }
}

/// The turns of a conversation: `<|role|>`, the content and a line break each,
/// leaving out messages with nothing to say.
pub open spec fn prompt_turns(ms: Seq<Message>) -> Seq<char>
    decreases ms.len(),
{
    if ms.len() == 0 {
        Seq::empty()
    } else {
        let c = prompt_content(ms.last());
        prompt_turns(ms.drop_last()) + if c.len() > 0 {
            "<|"@ + spec_role_str(ms.last()) + "|>\n"@ + c + "\n"@
        } else {
            Seq::empty()
        }
    }
}

/// The prompt of a conversation: its turns, then the assistant's cue.
pub open spec fn chat_prompt(ms: Seq<Message>) -> Seq<char> {
    prompt_turns(ms) + "<|assistant|>\n"@
}

pub fn messages_to_prompt(messages: &[Message]) -> (r: String)
    ensures
        r@ == chat_prompt(messages@),
{
    let mut prompt = String::new();
    let mut i: usize = 0;
    while i < messages.len()
        invariant
            i <= messages@.len(),
            prompt@ == prompt_turns(messages@.take(i as int)),
        decreases messages.len() - i,
    {
        let m = &messages[i];
        proof {
            assert(messages@.take(i + 1).drop_last() =~= messages@.take(i as int));
            assert(messages@.take(i + 1).last() == messages@[i as int]);
        }
        let ghost before = prompt@;
        let content: &str = match m.content() {
            MessageContent::Text(t) => t.as_str(),
            MessageContent::MultiPart(_) => "[multimodal content]",
            MessageContent::Empty => "",
        };
        proof {
            reveal_strlit("");
            assert(content@ == prompt_content(*m));
        }
        if !content.is_empty() {
            push_str(&mut prompt, "<|");
            push_str(&mut prompt, m.role_str());
            push_str(&mut prompt, "|>\n");
            push_str(&mut prompt, content);
            push_str(&mut prompt, "\n");
        }
        proof {
            assert(prompt@ =~= prompt_turns(messages@.take(i + 1)));
        }
        i = i + 1;
    }
    proof {
        assert(messages@.take(messages@.len() as int) =~= messages@);
    }
    push_str(&mut prompt, "<|assistant|>\n");
    prompt
}

/// The generate request for a local server: the model, the prompt, whether to
/// stream, the temperature (0.7 unless given, as the bit pattern of an `f32`),
/// the number of tokens to predict (2048 unless given) and the stop sequences
/// (sent for complete responses only).
#[derive(Debug, Clone)]
pub struct LocalBody {
    pub model: Option<String>,
    pub prompt: String,
    pub stream: bool,
    pub temperature_bits: u32,
    pub num_predict: usize,
    pub stop: Option<Vec<String>>,
}

pub fn local_body(request: &CompletionRequest, stream: bool) -> (b: LocalBody)
    ensures
        b.model == request.model,
        b.prompt@ == chat_prompt(request.messages@),
        b.stream == stream,
        b.temperature_bits == (match request.temperature_bits { Some(t) => t, None => SEVEN_TENTHS_BITS }),
        b.num_predict == (match request.max_tokens { Some(n) => n, None => 2048 }),
        stream ==> b.stop is None,
        !stream ==> (b.stop is Some <==> request.stop is Some),
        !stream && request.stop is Some ==> b.stop->Some_0@ == request.stop->Some_0@,
{
    let stop = if stream {
        None
    } else {
        match &request.stop {
            Some(v) => Some(crate::rag::types::copy_strings(v)),
            None => None,
        }
    };
    LocalBody {
        model: request.model.clone(),
        prompt: messages_to_prompt(request.messages.as_slice()),
        stream,
        temperature_bits: match request.temperature_bits {
            Some(t) => t,
            None => SEVEN_TENTHS_BITS,
        },
        num_predict: match request.max_tokens {
            Some(n) => n,
            None => 2048,
        },
        stop,
    }
}

/// What a local server's reply (or one streamed line) holds: the generated
/// text, the model, whether generation is done, whether an evaluation count is
/// present, and the prompt and output token counts.
#[derive(Debug, Clone)]
pub struct LocalReplyFields {
    pub response: Option<String>,
    pub model: Option<String>,
    pub done: Option<bool>,
    pub has_eval_count: bool,
    pub prompt_eval_count: Option<u64>,
    pub eval_count: Option<u64>,
}

/// The usage a reply reports: prompt and output tokens, no total.
pub open spec fn local_usage(f: LocalReplyFields) -> TokenUsage {
    TokenUsage {
        prompt_tokens: count_u32(f.prompt_eval_count),
        completion_tokens: count_u32(f.eval_count),
        total_tokens: 0,
        cached_tokens: None,
    }
}

fn usage_of(f: &LocalReplyFields) -> (u: TokenUsage)
    ensures
        u == local_usage(*f),
{
    TokenUsage {
        prompt_tokens: match f.prompt_eval_count {
            Some(v) => v as u32,
            None => 0,
        },
        completion_tokens: match f.eval_count {
            Some(v) => v as u32,
            None => 0,
        },
        total_tokens: 0,
        cached_tokens: None,
    }
}

/// The completion a reply stands for: its text, the model (`unknown` when
/// absent), the reported usage (all zero without an evaluation count), finish
/// reason `Stop`.
pub fn local_response(f: LocalReplyFields, latency_ms: u64) -> (r: CompletionResponse)
    ensures
        r.content == f.response,
        r.thinking is None,
        r.tool_calls@.len() == 0,
        r.usage == (if f.has_eval_count { local_usage(f) } else {
            TokenUsage { prompt_tokens: 0, completion_tokens: 0, total_tokens: 0, cached_tokens: None }
        }),
        r.model@ == (match f.model { Some(m) => m@, None => "unknown"@ }),
        r.finish_reason == FinishReason::Stop,
        r.latency_ms == latency_ms,
        r.cache_info is None,
{
    let usage = if f.has_eval_count { usage_of(&f) } else { TokenUsage::new(0, 0) };
    let model = match &f.model {
        Some(m) => m.clone(),
        None => String::from_str("unknown"),
    };
    CompletionResponse {
        content: f.response,
        thinking: None,
        tool_calls: Vec::new(),
        usage,
        model,
        finish_reason: FinishReason::Stop,
        latency_ms,
        cache_info: None,
    }
}

/// The events of one streamed line: its text when non-empty, then `Done` when
/// the line says generation is done, with the usage when an evaluation count is
/// present.
pub fn local_line_events(f: &LocalReplyFields) -> (r: Vec<StreamEvent>)
    ensures
        ({
            let text_n: int = if f.response is Some && f.response->Some_0@.len() > 0 { 1 } else { 0 };
            let done_n: int = if f.done == Some(true) { 1 } else { 0 };
            &&& r@.len() == text_n + done_n
            &&& text_n == 1 ==> (r@[0] matches StreamEvent::ContentDelta { delta } && Some(delta) == f.response)
            &&& done_n == 1 ==> (r@[text_n] matches StreamEvent::Done { finish_reason, usage }
                && finish_reason == FinishReason::Stop
                && usage == (if f.has_eval_count { Some(local_usage(*f)) } else { None }))
        }),
{
    let mut out: Vec<StreamEvent> = Vec::new();
    match &f.response {
        Some(t) => {
            if !t.as_str().is_empty() {
                out.push(StreamEvent::ContentDelta { delta: t.clone() });
            }
        },
        None => {},
    }
    let done = match f.done {
        Some(d) => d,
        None => false,
    };
    if done {
        let usage = if f.has_eval_count { Some(usage_of(f)) } else { None };
        out.push(StreamEvent::Done { finish_reason: FinishReason::Stop, usage });
    }
    out
}

} // verus!
