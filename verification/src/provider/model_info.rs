//! Model capability declarations and the checks the router makes against them.
use vstd::prelude::*;
use crate::text::chars_of;

verus! {

/// Input or output modality of a model.
#[derive(Debug, Clone, Copy, PartialEq, Eq, Structural)]
pub enum Modality {
    Text,
    Image,
    Audio,
    Video,
}

/// What a model can do.
#[derive(Debug, Clone)]
pub struct ModelCapabilities {
    pub context_window: usize,
    pub max_output_tokens: usize,
    pub supports_tool_calling: bool,
    pub supports_vision: bool,
    pub supports_streaming: bool,
    pub supports_structured_output: bool,
    pub supports_prompt_caching: bool,
    pub supports_thinking: bool,
    pub input_modalities: Vec<Modality>,
    pub output_modalities: Vec<Modality>,
}

impl Default for ModelCapabilities {
    fn default() -> (r: Self)
        ensures
            r.context_window == 4096,
            r.max_output_tokens == 2048,
            !r.supports_tool_calling,
            !r.supports_vision,
            !r.supports_streaming,
            !r.supports_structured_output,
            !r.supports_prompt_caching,
            !r.supports_thinking,
            r.input_modalities@.len() == 0,
            r.output_modalities@.len() == 0,
    {
        ModelCapabilities {
            context_window: 4096,
            max_output_tokens: 2048,
            supports_tool_calling: false,
            supports_vision: false,
            supports_streaming: false,
            supports_structured_output: false,
            supports_prompt_caching: false,
            supports_thinking: false,
            input_modalities: Vec::new(),
            output_modalities: Vec::new(),
        }
    }
}

/// Prices in US dollars per million tokens. Each price is held as the bit pattern of
/// the `f64` it stands for (`f64::to_bits`); the library only compares prices.
#[derive(Debug, Clone, Copy, PartialEq, Eq, Structural)]
pub struct ModelPricing {
    pub input_per_million_bits: u64,
    pub output_per_million_bits: u64,
    pub cache_read_per_million_bits: u64,
}

impl Default for ModelPricing {
    fn default() -> (r: Self)
        ensures
            r.input_per_million_bits == 0,
            r.output_per_million_bits == 0,
            r.cache_read_per_million_bits == 0,
    {
        ModelPricing { input_per_million_bits: 0, output_per_million_bits: 0, cache_read_per_million_bits: 0 }
    }
}

/// Rate limits of a model.
#[derive(Debug, Clone, Copy, PartialEq, Eq, Structural)]
pub struct ModelLimits {
    pub max_batch_size: usize,
    pub rpm: Option<u32>,
    pub tpm: Option<u32>,
}

impl Default for ModelLimits {
    fn default() -> (r: Self)
        ensures
            r.max_batch_size == 1,
            r.rpm.is_none(),
            r.tpm.is_none(),
    {
        ModelLimits { max_batch_size: 1, rpm: None, tpm: None }
    }
}

/// What a caller needs from a model.
#[derive(Debug, Clone, Copy, Default, PartialEq, Eq, Structural)]
pub struct CapabilityRequest {
    pub tool_calling: bool,
    pub vision: bool,
    pub structured_output: bool,
    pub thinking: bool,
    pub min_context_window: Option<usize>,
    pub max_output_tokens: Option<usize>,
}

/// A model known to the router.
#[derive(Debug, Clone)]
pub struct ModelInfo {
    pub name: String,
    pub display_name: Option<String>,
    pub provider: Option<String>,
    pub capabilities: ModelCapabilities,
    pub pricing: ModelPricing,
    pub limits: ModelLimits,
}

/// Whether capabilities `c` meet request `req`.
pub open spec fn spec_satisfies(c: ModelCapabilities, req: CapabilityRequest) -> bool {
    &&& (req.tool_calling ==> c.supports_tool_calling)
    &&& (req.vision ==> c.supports_vision)
    &&& (req.structured_output ==> c.supports_structured_output)
    &&& (req.thinking ==> c.supports_thinking)
    &&& (req.min_context_window matches Some(m) ==> c.context_window >= m)
    &&& (req.max_output_tokens matches Some(m) ==> c.max_output_tokens >= m)
}

/// Whether `c` is a CJK unified ideograph (U+4E00..=U+9FFF).
pub open spec fn is_cjk(c: char) -> bool {
    0x4E00 <= (c as u32) <= 0x9FFF
}

/// Token estimate for a text of `n` characters: `n / 1.5` rounded up when the text
/// holds a CJK ideograph, `n / 4` rounded up otherwise.
pub open spec fn spec_estimate_tokens(text: Seq<char>) -> nat {
    let n = text.len();
    if exists|i: int| 0 <= i < n && is_cjk(#[trigger] text[i]) {
        ((2 * n + 2) / 3) as nat
    } else {
        ((n + 3) / 4) as nat
    }
}

impl ModelInfo {
    /// Whether the model meets every requirement of `req`.
    pub fn satisfies(&self, req: &CapabilityRequest) -> (r: bool)
        ensures
            r == spec_satisfies(self.capabilities, *req),
    {
        if req.tool_calling && !self.capabilities.supports_tool_calling {
            return false;
        }
        if req.vision && !self.capabilities.supports_vision {
            return false;
        }
        if req.structured_output && !self.capabilities.supports_structured_output {
            return false;
        }
        if req.thinking && !self.capabilities.supports_thinking {
            return false;
        }
        if let Some(min_ctx) = req.min_context_window {
            if self.capabilities.context_window < min_ctx {
                return false;
            }
        }
        if let Some(max_out) = req.max_output_tokens {
            if self.capabilities.max_output_tokens < max_out {
                return false;
            }
        }
        true
    }

    /// Heuristic token count of `text`, for budgeting before a request is sent.
    pub fn estimate_tokens(&self, text: &str) -> (r: usize)
        ensures
            r == spec_estimate_tokens(text@),
    {
        let cs = chars_of(text);
        let n = cs.len();
        let mut has_cjk = false;
        let mut i: usize = 0;
        while i < n
            invariant
                n == cs@.len(),
                i <= n,
                has_cjk == exists|j: int| 0 <= j < i && is_cjk(#[trigger] cs@[j]),
            decreases n - i,
        {
            let v = cs[i] as u32;
            if 0x4E00 <= v && v <= 0x9FFF {
                has_cjk = true;
            }
            i = i + 1;
        }
        proof {
            assert(cs@ == text@);
        }
        if has_cjk {
            // n / 1.5 rounded up is (2n + 2) / 3; n is a char count, far below usize::MAX / 2
            if n <= usize::MAX / 4 {
                (2 * n + 2) / 3
            } else {
                ((2 * (n as u128) + 2) / 3) as usize
            }
        } else {
            n / 4 + if n % 4 == 0 { 0 } else { 1 }
        }
    }

    /// Room left in the context window after a prompt of `prompt_tokens` tokens.
    pub fn remaining_capacity(&self, prompt_tokens: usize) -> (r: usize)
        ensures
            r == if self.capabilities.context_window >= prompt_tokens {
                self.capabilities.context_window - prompt_tokens
            } else {
                0
            },
    {
        self.capabilities.context_window.saturating_sub(prompt_tokens)
    }
}

} // verus!
