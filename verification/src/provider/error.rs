//! Provider errors, their classification, and the retry back-off policy.
use std::time::Duration;
use vstd::prelude::*;
use crate::clock::{
    duration_as_millis, duration_from_millis, duration_from_secs, duration_millis, duration_nanos,
    subsec_nanos_now,
};
use crate::provider::model_info::CapabilityRequest;
use crate::text::{decimal, push_str, u64_to_decimal, usize_to_decimal};

verus! {

/// Provider error.
///
/// Transient (worth a retry): `Network`, `RateLimit`, `Overloaded`, `Timeout`.
/// Fatal: everything else.
#[derive(Debug)]
pub enum ProviderError {
    Network { message: String, detail: Option<String> },
    RateLimit { retry_after_ms: u64 },
    Overloaded,
    Timeout { timeout_ms: u64 },
    Cancelled,
    Config(String),
    Auth(String),
    TokenLimit { actual: usize, limit: usize },
    Format(String),
    ModelNotFound(String),
    UnsupportedCapability { model: String, capability: String },
    NoModelForCapability { required: CapabilityRequest },
    Internal { status: u16, message: String },
    NoRoute(String),
    KeySource(String),
}

/// Whether `e` is transient.
pub open spec fn spec_is_retryable(e: ProviderError) -> bool {
    ||| e is Network
    ||| e is RateLimit
    ||| e is Overloaded
    ||| e is Timeout
}

/// The wait that `e` suggests before a retry, in milliseconds.
pub open spec fn spec_retry_after_ms(e: ProviderError) -> Option<nat> {
    match e {
        ProviderError::RateLimit { retry_after_ms } => Some(retry_after_ms as nat),
        ProviderError::Overloaded => Some(5000),
        _ => None,
    }
}

/// `"true"` or `"false"`.
pub open spec fn bool_debug(b: bool) -> Seq<char> {
    if b { "true"@ } else { "false"@ }
}

/// Debug text of an `Option<usize>`.
pub open spec fn opt_usize_debug(o: Option<usize>) -> Seq<char> {
    match o {
        Some(v) => "Some("@ + decimal(v as nat) + ")"@,
        None => "None"@,
    }
}

/// Debug text of a capability request, as `#[derive(Debug)]` writes it.
pub open spec fn capability_request_debug(r: CapabilityRequest) -> Seq<char> {
    "CapabilityRequest { tool_calling: "@ + bool_debug(r.tool_calling)
        + ", vision: "@ + bool_debug(r.vision)
        + ", structured_output: "@ + bool_debug(r.structured_output)
        + ", thinking: "@ + bool_debug(r.thinking)
        + ", min_context_window: "@ + opt_usize_debug(r.min_context_window)
        + ", max_output_tokens: "@ + opt_usize_debug(r.max_output_tokens)
        + " }"@
}

/// The human-readable message of an error.
pub open spec fn spec_error_message(e: ProviderError) -> Seq<char> {
    match e {
        ProviderError::Network { message, .. } => "网络错误: "@ + message@,
        ProviderError::RateLimit { retry_after_ms } => "限流，"@ + decimal(retry_after_ms as nat) + "ms 后重试"@,
        ProviderError::Overloaded => "Provider 过载 (503)，稍后重试"@,
        ProviderError::Timeout { timeout_ms } => "超时 ("@ + decimal(timeout_ms as nat) + "ms)"@,
        ProviderError::Cancelled => "请求被取消"@,
        ProviderError::Config(m) => "配置错误: "@ + m@,
        ProviderError::Auth(m) => "认证失败: "@ + m@,
        ProviderError::TokenLimit { actual, limit } => "Token 超限: prompt="@ + decimal(actual as nat) + ", limit="@ + decimal(limit as nat),
        ProviderError::Format(m) => "输出格式错误: "@ + m@,
        ProviderError::ModelNotFound(m) => "模型不存在: "@ + m@,
        ProviderError::UnsupportedCapability { model, capability } => "不支持的能力: "@ + model@ + " 不支持 "@ + capability@,
        ProviderError::NoModelForCapability { required } => "没有模型满足能力要求: "@ + capability_request_debug(required),
        ProviderError::Internal { status, message } => "Provider 错误 ["@ + decimal(status as nat) + "]: "@ + message@,
        ProviderError::NoRoute(m) => "没有可用的 Provider 路由: "@ + m@,
        ProviderError::KeySource(m) => "无法获取 API Key: "@ + m@,
    }
}

fn bool_debug_string(b: bool) -> (s: String)
    ensures
        s@ == bool_debug(b),
{
    if b { String::from_str("true") } else { String::from_str("false") }
}

fn opt_usize_debug_string(o: Option<usize>) -> (s: String)
    ensures
        s@ == opt_usize_debug(o),
{
    match o {
        Some(v) => {
            let mut s = String::from_str("Some(");
            let d = usize_to_decimal(v);
            push_str(&mut s, d.as_str());
            push_str(&mut s, ")");
            s
        },
        None => String::from_str("None"),
    }
}

/// Debug text of a capability request.
pub fn capability_request_debug_string(r: &CapabilityRequest) -> (s: String)
    ensures
        s@ == capability_request_debug(*r),
{
    let mut s = String::from_str("CapabilityRequest { tool_calling: ");
    push_str(&mut s, bool_debug_string(r.tool_calling).as_str());
    push_str(&mut s, ", vision: ");
    push_str(&mut s, bool_debug_string(r.vision).as_str());
    push_str(&mut s, ", structured_output: ");
    push_str(&mut s, bool_debug_string(r.structured_output).as_str());
    push_str(&mut s, ", thinking: ");
    push_str(&mut s, bool_debug_string(r.thinking).as_str());
    push_str(&mut s, ", min_context_window: ");
    push_str(&mut s, opt_usize_debug_string(r.min_context_window).as_str());
    push_str(&mut s, ", max_output_tokens: ");
    push_str(&mut s, opt_usize_debug_string(r.max_output_tokens).as_str());
    push_str(&mut s, " }");
    s
}

fn prefixed(prefix: &str, body: &str) -> (s: String)
    ensures
        s@ == prefix@ + body@,
{
    let mut s = String::from_str(prefix);
    push_str(&mut s, body);
    s
}

impl ProviderError {
    /// Whether the error is transient and the request worth a retry.
    pub fn is_retryable(&self) -> (r: bool)
        ensures
            r == spec_is_retryable(*self),
    {
        match self {
            ProviderError::Network { .. } => true,
            ProviderError::RateLimit { .. } => true,
            ProviderError::Overloaded => true,
            ProviderError::Timeout { .. } => true,
            _ => false,
        }
    }

    /// Whether the caller cancelled the request.
    pub fn is_cancelled(&self) -> (r: bool)
        ensures
            r == (*self is Cancelled),
    {
        match self {
            ProviderError::Cancelled => true,
            _ => false,
        }
    }

    /// The suggested wait before a retry, in milliseconds.
    pub fn retry_after_ms(&self) -> (r: Option<u64>)
        ensures
            r matches Some(ms) ==> spec_retry_after_ms(*self) == Some(ms as nat),
            r is None <==> spec_retry_after_ms(*self) is None,
    {
        match self {
            ProviderError::RateLimit { retry_after_ms } => Some(*retry_after_ms),
            ProviderError::Overloaded => Some(5000),
            _ => None,
        }
    }

    /// The suggested wait before a retry.
    pub fn retry_after(&self) -> (r: Option<Duration>)
        ensures
            r matches Some(d) ==> (spec_retry_after_ms(*self) matches Some(ms) && duration_nanos(d) == ms * 1_000_000),
            r is None <==> spec_retry_after_ms(*self) is None,
    {
        match self {
            ProviderError::RateLimit { retry_after_ms } => Some(duration_from_millis(*retry_after_ms)),
            ProviderError::Overloaded => Some(duration_from_secs(5)),
            _ => None,
        }
    }

    /// The error's message, as its `Display` writes it.
    pub fn to_display_string(&self) -> (s: String)
        ensures
            s@ == spec_error_message(*self),
    {
        match self {
            ProviderError::Network { message, .. } => prefixed("网络错误: ", message.as_str()),
            ProviderError::RateLimit { retry_after_ms } => {
                let mut s = prefixed("限流，", u64_to_decimal(*retry_after_ms).as_str());
                push_str(&mut s, "ms 后重试");
                s
            },
            ProviderError::Overloaded => String::from_str("Provider 过载 (503)，稍后重试"),
            ProviderError::Timeout { timeout_ms } => {
                let mut s = prefixed("超时 (", u64_to_decimal(*timeout_ms).as_str());
                push_str(&mut s, "ms)");
                s
            },
            ProviderError::Cancelled => String::from_str("请求被取消"),
            ProviderError::Config(m) => prefixed("配置错误: ", m.as_str()),
            ProviderError::Auth(m) => prefixed("认证失败: ", m.as_str()),
            ProviderError::TokenLimit { actual, limit } => {
                let mut s = prefixed("Token 超限: prompt=", usize_to_decimal(*actual).as_str());
                push_str(&mut s, ", limit=");
                push_str(&mut s, usize_to_decimal(*limit).as_str());
                s
            },
            ProviderError::Format(m) => prefixed("输出格式错误: ", m.as_str()),
            ProviderError::ModelNotFound(m) => prefixed("模型不存在: ", m.as_str()),
            ProviderError::UnsupportedCapability { model, capability } => {
                let mut s = prefixed("不支持的能力: ", model.as_str());
                push_str(&mut s, " 不支持 ");
                push_str(&mut s, capability.as_str());
                s
            },
            ProviderError::NoModelForCapability { required } => prefixed(
                "没有模型满足能力要求: ",
                capability_request_debug_string(required).as_str(),
            ),
            ProviderError::Internal { status, message } => {
                let mut s = prefixed("Provider 错误 [", u64_to_decimal(*status as u64).as_str());
                push_str(&mut s, "]: ");
                push_str(&mut s, message.as_str());
                s
            },
            ProviderError::NoRoute(m) => prefixed("没有可用的 Provider 路由: ", m.as_str()),
            ProviderError::KeySource(m) => prefixed("无法获取 API Key: ", m.as_str()),
        }
    }
}

/// Retry policy: exponential back-off with optional jitter.
#[derive(Debug, Clone)]
pub struct RetryStrategy {
    pub max_retries: u32,
    pub base_delay: Duration,
    pub max_delay: Duration,
    pub jitter: bool,
}

/// `2^k`.
pub open spec fn pow2(k: nat) -> nat
    decreases k,
{
    if k == 0 { 1 } else { 2 * pow2((k - 1) as nat) }
}

/// Back-off before retry number `attempt` (from 0), in milliseconds, before jitter:
/// `base * 2^min(attempt, 30)`, capped at `max`.
pub open spec fn backoff_ms(base: nat, max: nat, attempt: nat) -> nat {
    let k = if attempt < 30 { attempt } else { 30 };
    let d = base * pow2(k);
    if d < max { d } else { max }
}

/// A millisecond count as a `u64` cast saturates it.
pub open spec fn saturate_u64(v: nat) -> nat {
    if v <= u64::MAX { v } else { u64::MAX as nat }
}

/// Jittered delay: `delay * (0.5 + 0.5 * nanos / 1e9)`, rounded down.
pub open spec fn jittered_ms(delay: nat, nanos: nat) -> nat {
    (delay * (1_000_000_000 + nanos) / 2_000_000_000) as nat
}

proof fn lemma_pow2_mono(i: nat, j: nat)
    requires
        i <= j,
    ensures
        1 <= pow2(i) <= pow2(j),
    decreases j,
{
    if j > 0 {
        if i < j {
            lemma_pow2_mono(i, (j - 1) as nat);
        } else {
            lemma_pow2_mono((i - 1) as nat, (j - 1) as nat);
        }
    }
}

proof fn lemma_pow2_bound(k: nat)
    requires
        k <= 30,
    ensures
        1 <= pow2(k) <= 0x4000_0000,
{
    lemma_pow2_mono(k, 30);
    reveal_with_fuel(pow2, 31);
    assert(pow2(30) == 0x4000_0000);
}

impl Default for RetryStrategy {
    fn default() -> (r: Self)
        ensures
            r.max_retries == 3,
            duration_nanos(r.base_delay) == 1_000_000_000,
            duration_nanos(r.max_delay) == 30_000_000_000,
            r.jitter,
    {
        RetryStrategy {
            max_retries: 3,
            base_delay: duration_from_secs(1),
            max_delay: duration_from_secs(30),
            jitter: true,
        }
    }
}

impl RetryStrategy {
    pub fn new(max_retries: u32, base_delay: Duration, max_delay: Duration, jitter: bool) -> (r: Self)
        ensures
            r.max_retries == max_retries,
            r.base_delay == base_delay,
            r.max_delay == max_delay,
            r.jitter == jitter,
    {
        RetryStrategy { max_retries, base_delay, max_delay, jitter }
    }

    /// Back-off for retry number `attempt`, in milliseconds, with the jitter drawn
    /// from `nanos` (a fraction `nanos / 1e9` of a second); `nanos` is ignored when
    /// jitter is off.
    pub fn delay_ms_with(&self, attempt: u32, nanos: u32) -> (ms: u64)
        requires
            nanos < 1_000_000_000,
        ensures
            ms == if self.jitter {
                jittered_ms(
                    saturate_u64(backoff_ms(duration_millis(self.base_delay), duration_millis(self.max_delay), attempt as nat)),
                    nanos as nat,
                )
            } else {
                saturate_u64(backoff_ms(duration_millis(self.base_delay), duration_millis(self.max_delay), attempt as nat))
            },
    {
        let base = duration_as_millis(&self.base_delay);
        let max = duration_as_millis(&self.max_delay);
        let k: u32 = if attempt < 30 { attempt } else { 30 };
        let mut factor: u128 = 1;
        let mut i: u32 = 0;
        while i < k
            invariant
                i <= k <= 30,
                factor == pow2(i as nat),
            decreases k - i,
        {
            proof {
                lemma_pow2_bound(i as nat);
            }
            factor = factor * 2;
            i = i + 1;
        }
        proof {
            lemma_pow2_bound(k as nat);
        }
        // a product past u128::MAX is past any cap, which fits in u128
        let capped: u128 = match base.checked_mul(factor) {
            Some(d) => if d < max { d } else { max },
            None => max,
        };
        let sat: u64 = if capped <= u64::MAX as u128 { capped as u64 } else { u64::MAX };
        if self.jitter {
            proof {
                assert((sat as u128) * (1_000_000_000u128 + nanos as u128) <= u64::MAX * 2_000_000_000) by (nonlinear_arith)
                    requires sat <= u64::MAX, nanos < 1_000_000_000;
            }
            let num: u128 = (sat as u128) * (1_000_000_000u128 + nanos as u128);
            let j = num / 2_000_000_000u128;
            proof {
                assert(j <= sat) by (nonlinear_arith)
                    requires j == num / 2_000_000_000u128, num == (sat as u128) * (1_000_000_000u128 + nanos as u128), nanos < 1_000_000_000;
            }
            j as u64
        } else {
            sat
        }
    }

    /// Back-off for retry number `attempt` (from 0): `base_delay * 2^min(attempt, 30)`
    /// capped at `max_delay`; with jitter, scaled by a factor in [0.5, 1) drawn from the
    /// clock.
    pub fn delay_for_attempt(&self, attempt: u32) -> (d: Duration)
        ensures
            !self.jitter ==> duration_nanos(d) == saturate_u64(
                backoff_ms(duration_millis(self.base_delay), duration_millis(self.max_delay), attempt as nat),
            ) * 1_000_000,
            self.jitter ==> exists|n: nat| n < 1_000_000_000 && duration_nanos(d) == jittered_ms(
                saturate_u64(
                    backoff_ms(duration_millis(self.base_delay), duration_millis(self.max_delay), attempt as nat),
                ),
                n,
            ) * 1_000_000,
    {
        let nanos = rand_dummy();
        let ms = self.delay_ms_with(attempt, nanos);
        let d = duration_from_millis(ms);
        proof {
            if self.jitter {
                assert(duration_nanos(d) == jittered_ms(
                    saturate_u64(
                        backoff_ms(duration_millis(self.base_delay), duration_millis(self.max_delay), attempt as nat),
                    ),
                    nanos as nat,
                ) * 1_000_000);
            }
        }
        d
    }
}

/// A jitter draw in nanoseconds, below one second.
fn rand_dummy() -> (n: u32)
    ensures
        n < 1_000_000_000,
{
    subsec_nanos_now()
}

/// Law: the back-off never exceeds the cap, and with jitter the wait lies between
/// half the back-off and the back-off itself.
pub proof fn law_backoff_bounds(base: nat, max: nat, attempt: nat, nanos: nat)
    requires
        nanos < 1_000_000_000,
    ensures
        backoff_ms(base, max, attempt) <= max,
        saturate_u64(backoff_ms(base, max, attempt)) / 2 <= jittered_ms(saturate_u64(backoff_ms(base, max, attempt)), nanos),
        jittered_ms(saturate_u64(backoff_ms(base, max, attempt)), nanos) <= saturate_u64(backoff_ms(base, max, attempt)),
{
    let d = saturate_u64(backoff_ms(base, max, attempt));
    assert(d * 1_000_000_000 <= d * (1_000_000_000 + nanos)) by (nonlinear_arith);
    assert(d * (1_000_000_000 + nanos) <= d * 2_000_000_000) by (nonlinear_arith)
        requires nanos < 1_000_000_000;
    assert(d / 2 <= (d * (1_000_000_000 + nanos)) / 2_000_000_000) by (nonlinear_arith)
        requires d * 1_000_000_000 <= d * (1_000_000_000 + nanos);
    assert((d * (1_000_000_000 + nanos)) / 2_000_000_000 <= d) by (nonlinear_arith)
        requires d * (1_000_000_000 + nanos) <= d * 2_000_000_000;
}

/// Law: the back-off never shrinks from one attempt to the next.
pub proof fn law_backoff_monotone(base: nat, max: nat, attempt: nat)
    ensures
        backoff_ms(base, max, attempt) <= backoff_ms(base, max, attempt + 1),
{
    let k1 = if attempt < 30 { attempt } else { 30 };
    let k2 = if attempt + 1 < 30 { attempt + 1 } else { 30 };
    lemma_pow2_mono(k1, k2);
    assert(base * pow2(k1) <= base * pow2(k2)) by (nonlinear_arith)
        requires pow2(k1) <= pow2(k2);
}

/// How a transport failure is reported: a timeout; a failure to connect or to
/// send, or no status, as a network error with the text; 503 as overloaded; 429
/// as a rate limit; 401 and 403 as an authentication failure with the text; any
/// other status as an internal error with the status and the text.
pub open spec fn is_transport_error(
    e: ProviderError,
    is_timeout: bool,
    is_connect_or_request: bool,
    status: Option<u16>,
    text: String,
) -> bool {
    &&& is_timeout ==> e == (ProviderError::Timeout { timeout_ms: 0 })
    &&& !is_timeout && (is_connect_or_request || status is None)
        ==> e == (ProviderError::Network { message: text, detail: None })
    &&& !is_timeout && !is_connect_or_request && status == Some(503u16) ==> e is Overloaded
    &&& !is_timeout && !is_connect_or_request && status == Some(429u16)
        ==> e == (ProviderError::RateLimit { retry_after_ms: 0 })
    &&& !is_timeout && !is_connect_or_request && (status == Some(401u16) || status == Some(403u16))
        ==> e == ProviderError::Auth(text)
    &&& !is_timeout && !is_connect_or_request && (status matches Some(s) && s != 503 && s != 429 && s != 401 && s != 403)
        ==> e == (ProviderError::Internal { status: status->0, message: text })
}

impl ProviderError {
    /// The error for a request that failed in transport, from what the HTTP client
    /// reports: a timeout, a failure to connect or to send, or an error status.
    pub fn from_transport_failure(
        is_timeout: bool,
        is_connect_or_request: bool,
        status: Option<u16>,
        text: String,
    ) -> (e: ProviderError)
        ensures
            is_transport_error(e, is_timeout, is_connect_or_request, status, text),
    {
        if is_timeout {
            ProviderError::Timeout { timeout_ms: 0 }
        } else if is_connect_or_request {
            ProviderError::Network { message: text, detail: None }
        } else {
            match status {
                Some(s) => {
                    if s == 503 {
                        ProviderError::Overloaded
                    } else if s == 429 {
                        ProviderError::RateLimit { retry_after_ms: 0 }
                    } else if s == 401 || s == 403 {
                        ProviderError::Auth(text)
                    } else {
                        ProviderError::Internal { status: s, message: text }
                    }
                },
                None => ProviderError::Network { message: text, detail: None },
            }
        }
    }

    /// Converts an error of the HTTP client, by what it reports of itself: the
    /// result is the transport error for some timeout flag, connect-or-send
    /// flag, status and text (which ones the client reports is not stated).
    pub fn from_reqwest(e: &reqwest::Error) -> (r: ProviderError)
        ensures
            exists|t: bool, c: bool, s: Option<u16>, x: String| #[trigger] is_transport_error(r, t, c, s, x),
    {
        let timeout = reqwest_is_timeout(e);
        let connect_or_request = reqwest_is_connect(e) || reqwest_is_request(e);
        let status = reqwest_status(e);
        let text = reqwest_error_text(e);
        ProviderError::from_transport_failure(timeout, connect_or_request, status, text)
    }

    /// The error for a response with a non-success status from a hosted API:
    /// 401 is an authentication failure, 429 a rate limit with a suggested
    /// wait of 5000 ms, anything else an internal error carrying the body.
    pub fn for_error_status(status: u16, body: String) -> (e: ProviderError)
        ensures
            status == 401 ==> e == ProviderError::Auth(body),
            status == 429 ==> e == (ProviderError::RateLimit { retry_after_ms: 5000 }),
            status != 401 && status != 429 ==> e == (ProviderError::Internal { status, message: body }),
    {
        if status == 401 {
            ProviderError::Auth(body)
        } else if status == 429 {
            ProviderError::RateLimit { retry_after_ms: 5000 }
        } else {
            ProviderError::Internal { status, message: body }
        }
    }
}

#[verifier::external_type_specification]
#[verifier::external_body]
pub struct ExReqwestError(reqwest::Error);

/// `reqwest::Error::is_timeout`. Nothing is promised of the answer.
#[verifier::external_body]
fn reqwest_is_timeout(e: &reqwest::Error) -> bool {
    e.is_timeout()
}

/// `reqwest::Error::is_connect`. Nothing is promised of the answer.
#[verifier::external_body]
fn reqwest_is_connect(e: &reqwest::Error) -> bool {
    e.is_connect()
}

/// `reqwest::Error::is_request`. Nothing is promised of the answer.
#[verifier::external_body]
fn reqwest_is_request(e: &reqwest::Error) -> bool {
    e.is_request()
}

/// `reqwest::Error::status`, as the numeric status code. Nothing is promised of it.
#[verifier::external_body]
fn reqwest_status(e: &reqwest::Error) -> Option<u16> {
    e.status().map(|s| s.as_u16())
}

/// The `Display` text of a `reqwest::Error`. Nothing is promised of it.
#[verifier::external_body]
fn reqwest_error_text(e: &reqwest::Error) -> String {
    format!("{}", e)
}

} // verus!
