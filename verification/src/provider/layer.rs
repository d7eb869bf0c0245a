//! Provider middleware: layers wrap a provider and act around its calls.
use vstd::prelude::*;
use std::time::Duration;
use crate::clock::{duration_millis, duration_nanos};
use crate::provider::error::{backoff_ms, jittered_ms, saturate_u64, spec_is_retryable, ProviderError, RetryStrategy};

verus! {

/// A provider wrapped by a layer's service.
#[derive(Debug)]
pub struct Layered<L, S> {
    layer: L,
    inner: S,
}

impl<L, S> Layered<L, S> {
    pub fn new(layer: L, inner: S) -> (r: Self)
        ensures
            r.spec_layer() == layer,
            r.spec_inner() == inner,
    {
        Layered { layer, inner }
    }

    pub closed spec fn spec_layer(&self) -> L {
        self.layer
    }

    pub closed spec fn spec_inner(&self) -> S {
        self.inner
    }

    /// The service that handles the calls.
    pub fn layer(&self) -> (r: &L)
        ensures
            *r == self.spec_layer(),
    {
        &self.layer
    }

    /// The wrapped provider.
    pub fn inner(&self) -> (r: &S)
        ensures
            *r == self.spec_inner(),
    {
        &self.inner
    }
}

/// Retries transient failures with exponential back-off and jitter.
#[derive(Debug, Clone)]
pub struct RetryLayer {
    strategy: RetryStrategy,
}

impl RetryLayer {
    pub fn new(strategy: RetryStrategy) -> (r: Self)
        ensures
            r.spec_strategy() == strategy,
    {
        RetryLayer { strategy }
    }

    pub closed spec fn spec_strategy(&self) -> RetryStrategy {
        self.strategy
    }

    /// The service that carries out this layer's retries.
    pub fn service(self) -> (s: RetryLayerService)
        ensures
            s.spec_strategy() == self.spec_strategy(),
    {
        RetryLayerService { strategy: self.strategy }
    }
}

impl Default for RetryLayer {
    fn default() -> (r: Self)
        ensures
            r.spec_strategy().max_retries == 3,
            r.spec_strategy().jitter,
    {
        RetryLayer::new(RetryStrategy::default())
    }
}

/// What follows a failed attempt.
#[derive(Debug, Clone)]
pub enum RetryStep {
    /// Wait this long, then try again.
    Retry(Duration),
    /// Give the error to the caller.
    GiveUp,
}

/// The retry service of a [`RetryLayer`].
#[derive(Debug, Clone)]
pub struct RetryLayerService {
    strategy: RetryStrategy,
}

impl RetryLayerService {
    pub closed spec fn spec_strategy(&self) -> RetryStrategy {
        self.strategy
    }

    /// After attempt number `attempt` (from 0) failed with `err`: retry when the
    /// error is transient and fewer than `max_retries` retries were made, after
    /// the strategy's back-off for that attempt; otherwise give up.
    pub fn after_failure(&self, attempt: u32, err: &ProviderError) -> (s: RetryStep)
        ensures
            !(spec_is_retryable(*err) && attempt < self.spec_strategy().max_retries) ==> s is GiveUp,
            spec_is_retryable(*err) && attempt < self.spec_strategy().max_retries ==> (s matches RetryStep::Retry(d) && {
                let b = saturate_u64(backoff_ms(
                    duration_millis(self.spec_strategy().base_delay),
                    duration_millis(self.spec_strategy().max_delay),
                    attempt as nat,
                ));
                &&& !self.spec_strategy().jitter ==> duration_nanos(d) == b * 1_000_000
                &&& self.spec_strategy().jitter ==> exists|n: nat| n < 1_000_000_000 && duration_nanos(d) == jittered_ms(b, n) * 1_000_000
            }),
    {
        if err.is_retryable() && attempt < self.strategy.max_retries {
            RetryStep::Retry(self.strategy.delay_for_attempt(attempt))
        } else {
            RetryStep::GiveUp
        }
    }
}

/// Logs each call's latency, token usage and errors.
#[derive(Debug, Clone, Copy)]
pub struct TelemetryLayer;

/// The logging service of a [`TelemetryLayer`].
#[derive(Debug, Clone, Copy)]
pub struct TelemetryLayerService;

} // verus!
