//! Running token-usage totals.
use vstd::prelude::*;
use crate::provider::message::TokenUsage;

verus! {

/// Totals over the completions recorded so far.
pub struct TokenStats {
    pub prompt_tokens: u64,
    pub completion_tokens: u64,
    pub total_requests: u64,
}

impl TokenStats {
    pub fn new() -> (r: Self)
        ensures
            r.prompt_tokens == 0,
            r.completion_tokens == 0,
            r.total_requests == 0,
    {
        TokenStats { prompt_tokens: 0, completion_tokens: 0, total_requests: 0 }
    }

    /// Adds one completion's usage to the totals.
    pub fn record(&mut self, usage: &TokenUsage)
        requires
            old(self).prompt_tokens + usage.prompt_tokens <= u64::MAX,
            old(self).completion_tokens + usage.completion_tokens <= u64::MAX,
            old(self).total_requests + 1 <= u64::MAX,
        ensures
            final(self).prompt_tokens == old(self).prompt_tokens + usage.prompt_tokens,
            final(self).completion_tokens == old(self).completion_tokens + usage.completion_tokens,
            final(self).total_requests == old(self).total_requests + 1,
    {
        self.prompt_tokens = self.prompt_tokens + usage.prompt_tokens as u64;
        self.completion_tokens = self.completion_tokens + usage.completion_tokens as u64;
        self.total_requests = self.total_requests + 1;
    }
}

impl Default for TokenStats {
    fn default() -> (r: Self)
        ensures
            r.prompt_tokens == 0,
            r.completion_tokens == 0,
            r.total_requests == 0,
    {
        TokenStats::new()
    }
}

} // verus!
