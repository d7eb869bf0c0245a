//! Cancellation of requests in flight.
use vstd::prelude::*;

verus! {

#[verifier::external_type_specification]
#[verifier::external_body]
pub struct ExCancelToken(tokio_util::sync::CancellationToken);

/// `tokio_util::sync::CancellationToken::new`: a fresh token, not cancelled.
/// Nothing is stated of it: the token's state is shared and changes under the
/// caller.
#[verifier::external_body]
fn token_new() -> (t: tokio_util::sync::CancellationToken) {
    tokio_util::sync::CancellationToken::new()
}

/// `CancellationToken::cancel`: cancels the token and every token derived from it.
#[verifier::external_body]
fn token_cancel(t: &tokio_util::sync::CancellationToken) {
    t.cancel()
}

/// `CancellationToken::is_cancelled`. The answer depends on what other holders of
/// the token have done, so nothing is stated of it.
#[verifier::external_body]
fn token_is_cancelled(t: &tokio_util::sync::CancellationToken) -> (b: bool) {
    t.is_cancelled()
}

/// `CancellationToken::child_token`: a token cancelled with this one but not
/// the other way round.
#[verifier::external_body]
fn token_child(t: &tokio_util::sync::CancellationToken) -> (c: tokio_util::sync::CancellationToken) {
    t.child_token()
}

/// `CancellationToken::clone`: another handle on the same token. The clone
/// shares the original's node (the same `Arc`), so the contract states it is the
/// same token.
#[verifier::external_body]
fn token_clone(t: &tokio_util::sync::CancellationToken) -> (c: tokio_util::sync::CancellationToken)
    ensures
        c == *t,
{
    t.clone()
}

/// A handle to cancel a request, shared by everything working on it.
#[derive(Debug)]
pub struct CancelToken {
    inner: tokio_util::sync::CancellationToken,
}

impl CancelToken {
    /// The underlying token this handle works on.
    pub closed spec fn token(&self) -> tokio_util::sync::CancellationToken {
        self.inner
    }

    pub fn new() -> (r: Self) {
        CancelToken { inner: token_new() }
    }

    pub fn cancel(&self) {
        token_cancel(&self.inner)
    }

    pub fn is_cancelled(&self) -> (b: bool) {
        token_is_cancelled(&self.inner)
    }

    /// The underlying token, for waiting on cancellation.
    pub fn cancelled(&self) -> (t: tokio_util::sync::CancellationToken)
        ensures
            t == self.token(),
    {
        token_clone(&self.inner)
    }

    /// A token cancelled with this one.
    pub fn child(&self) -> (r: Self) {
        CancelToken { inner: token_child(&self.inner) }
    }

    /// The underlying token.
    pub fn into_inner(self) -> (t: tokio_util::sync::CancellationToken)
        ensures
            t == self.token(),
    {
        self.inner
    }

    /// A handle on an existing token.
    pub fn from_inner(inner: tokio_util::sync::CancellationToken) -> (r: Self)
        ensures
            r.token() == inner,
    {
        CancelToken { inner }
    }
}

impl Clone for CancelToken {
    fn clone(&self) -> (r: Self) {
        CancelToken { inner: token_clone(&self.inner) }
    }
}

impl Default for CancelToken {
    fn default() -> (r: Self) {
        CancelToken::new()
    }
}

} // verus!
