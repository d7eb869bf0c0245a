//! Completion requests and per-request options.
use vstd::prelude::*;
use std::time::Duration;
use crate::provider::cancel::CancelToken;
use crate::provider::message::{Message, ToolDefinition};

verus! {

/// How a model may call tools.
#[derive(Debug, Clone)]
pub enum ToolChoice {
    Auto,
    Required,
    Disabled,
    Specific { name: String },
}

/// A required shape of the output.
#[derive(Debug, Clone)]
pub enum ResponseFormat {
    Json,
    JsonSchema { schema: serde_json::Value, name: String },
}

/// How hard a reasoning model thinks.
#[derive(Debug, Clone, Copy, PartialEq, Eq, Structural)]
pub enum ReasoningEffort {
    Low,
    Medium,
    High,
}

/// `uuid::Uuid::new_v4` formatted with `to_string`: a random version-4 UUID in
/// its hyphenated form, 36 characters long.
#[verifier::external_body]
fn random_request_id() -> (s: String)
    ensures
        s@.len() == 36,
{
    uuid::Uuid::new_v4().to_string()
}

/// A completion request. Sampling parameters that are `f32` are held as their
/// bit patterns; the logit bias is a map kept as a list of distinct keys.
#[derive(Debug, Clone)]
pub struct CompletionRequest {
    pub model: Option<String>,
    pub messages: Vec<Message>,
    pub tools: Option<Vec<ToolDefinition>>,
    pub tool_choice: Option<ToolChoice>,
    pub response_format: Option<ResponseFormat>,
    pub temperature_bits: Option<u32>,
    pub max_tokens: Option<usize>,
    pub max_completion_tokens: Option<usize>,
    pub top_p_bits: Option<u32>,
    pub top_k: Option<u32>,
    pub stop: Option<Vec<String>>,
    pub frequency_penalty_bits: Option<u32>,
    pub presence_penalty_bits: Option<u32>,
    pub seed: Option<u64>,
    pub reasoning_effort: Option<ReasoningEffort>,
    pub logprobs: Option<bool>,
    pub logit_bias: Option<Vec<(String, u32)>>,
    pub stream_include_usage: Option<bool>,
    pub request_id: String,
}

/// A request for `model` (or none) with nothing but the messages set.
pub open spec fn bare_request(r: CompletionRequest) -> bool {
    &&& r.tools is None
    &&& r.tool_choice is None
    &&& r.response_format is None
    &&& r.temperature_bits is None
    &&& r.max_tokens is None
    &&& r.max_completion_tokens is None
    &&& r.top_p_bits is None
    &&& r.top_k is None
    &&& r.stop is None
    &&& r.frequency_penalty_bits is None
    &&& r.presence_penalty_bits is None
    &&& r.seed is None
    &&& r.reasoning_effort is None
    &&& r.logprobs is None
    &&& r.logit_bias is None
    &&& r.stream_include_usage is None
    &&& r.request_id@.len() == 36
}

impl CompletionRequest {
    /// A request for `model` with `messages`, nothing else set, and a fresh
    /// random request id.
    pub fn new(model: String, messages: Vec<Message>) -> (r: Self)
        ensures
            r.model == Some(model),
            r.messages@ == messages@,
            bare_request(r),
    {
        CompletionRequest {
            model: Some(model),
            messages,
            tools: None,
            tool_choice: None,
            response_format: None,
            temperature_bits: None,
            max_tokens: None,
            max_completion_tokens: None,
            top_p_bits: None,
            top_k: None,
            stop: None,
            frequency_penalty_bits: None,
            presence_penalty_bits: None,
            seed: None,
            reasoning_effort: None,
            logprobs: None,
            logit_bias: None,
            stream_include_usage: None,
            request_id: random_request_id(),
        }
    }
}

impl Default for CompletionRequest {
    /// No model, no messages, nothing set, and a fresh random request id.
    fn default() -> (r: Self)
        ensures
            r.model is None,
            r.messages@.len() == 0,
            bare_request(r),
    {
        CompletionRequest {
            model: None,
            messages: Vec::new(),
            tools: None,
            tool_choice: None,
            response_format: None,
            temperature_bits: None,
            max_tokens: None,
            max_completion_tokens: None,
            top_p_bits: None,
            top_k: None,
            stop: None,
            frequency_penalty_bits: None,
            presence_penalty_bits: None,
            seed: None,
            reasoning_effort: None,
            logprobs: None,
            logit_bias: None,
            stream_include_usage: None,
            request_id: random_request_id(),
        }
    }
}

/// How a provider carries out one request.
#[derive(Debug, Clone)]
pub struct RequestOptions {
    pub timeout: Option<Duration>,
    pub cancel: Option<CancelToken>,
    pub metadata: Option<Vec<(String, serde_json::Value)>>,
}

impl Default for RequestOptions {
    fn default() -> (r: Self)
        ensures
            r.timeout is None,
            r.cancel is None,
            r.metadata is None,
    {
        RequestOptions { timeout: None, cancel: None, metadata: None }
    }
}

/// Legacy structured-output request.
#[derive(Debug, Clone)]
pub struct StructuredRequest {
    pub model: String,
    pub messages: Vec<Message>,
    pub response_schema: serde_json::Value,
    pub temperature_bits: Option<u32>,
    pub max_tokens: Option<usize>,
    pub request_id: String,
}

} // verus!
