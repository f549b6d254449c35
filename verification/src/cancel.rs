//! Cancelling tasks: tokens that are shared by tasks, and handles that abort
//! one task.
//!
//! Both are shared with other threads. That one of them was cancelled is
//! final, so it can be known of a value; one that is not known to be cancelled
//! may be so all the same.

use vstd::prelude::*;

verus! {

/// A token of the `tokio_util` crate.
#[verifier::external_type_specification]
#[verifier::external_body]
pub struct ExCancellationToken(tokio_util::sync::CancellationToken);

/// A handle of the `futures` crate that aborts a task.
#[verifier::external_type_specification]
#[verifier::external_body]
pub struct ExAbortHandle(futures::future::AbortHandle);

/// What ties a task to its `AbortHandle`.
#[verifier::external_type_specification]
#[verifier::external_body]
pub struct ExAbortRegistration(futures::future::AbortRegistration);

/// Whether `token` is known to be cancelled.
pub uninterp spec fn token_cancelled(token: tokio_util::sync::CancellationToken) -> bool;

/// Whether `follower` is cancelled as soon as `leader` is.
pub uninterp spec fn follows(
    follower: tokio_util::sync::CancellationToken,
    leader: tokio_util::sync::CancellationToken,
) -> bool;

/// Whether `handle` is known to have aborted its task.
pub uninterp spec fn handle_aborted(handle: futures::future::AbortHandle) -> bool;

/// Whether `handle` aborts the task of `registration`.
pub uninterp spec fn aborts(
    handle: futures::future::AbortHandle,
    registration: futures::future::AbortRegistration,
) -> bool;

/// Calls `CancellationToken::new`: a token that nothing has cancelled.
#[verifier::external_body]
pub(crate) fn new_token() -> (token: tokio_util::sync::CancellationToken)
    ensures
        !token_cancelled(token),
{
    tokio_util::sync::CancellationToken::new()
}

/// Calls `CancellationToken::clone`: another value for the same token.
#[verifier::external_body]
pub(crate) fn clone_token(token: &tokio_util::sync::CancellationToken) -> (same:
    tokio_util::sync::CancellationToken)
    ensures
        token_cancelled(same) == token_cancelled(*token),
        follows(same, *token),
{
    token.clone()
}

/// Calls `CancellationToken::child_token`: a token that is cancelled whenever
/// `token` is, and whose own cancellation leaves `token` alone.
#[verifier::external_body]
pub(crate) fn child_token(token: &tokio_util::sync::CancellationToken) -> (child:
    tokio_util::sync::CancellationToken)
    ensures
        token_cancelled(child) == token_cancelled(*token),
        follows(child, *token),
        !follows(*token, child),
{
    token.child_token()
}

/// Calls `CancellationToken::cancel`, which cancels `token` for good. What
/// followed it before follows it still.
#[verifier::external_body]
pub(crate) fn cancel(token: &mut tokio_util::sync::CancellationToken)
    ensures
        token_cancelled(*final(token)),
        forall|follower: tokio_util::sync::CancellationToken|
            follows(follower, *old(token)) ==> #[trigger] follows(follower, *final(token)),
{
    token.cancel()
}

/// The receipt for the question whether a token is cancelled. Its fields are not
/// visible outside of this module, where nothing but that question makes one.
pub struct TokenState {
    cancelled: bool,
    at: Ghost<tokio_util::sync::CancellationToken>,
}

impl TokenState {
    /// Whether the token was cancelled.
    pub closed spec fn answer(&self) -> bool {
        self.cancelled
    }

    /// The token.
    pub closed spec fn at(&self) -> tokio_util::sync::CancellationToken {
        self.at@
    }

    /// Whether the token was cancelled.
    pub fn cancelled(&self) -> (cancelled: bool)
        ensures
            cancelled == self.answer(),
    {
        self.cancelled
    }
}

/// Calls `CancellationToken::is_cancelled`, which asks `token` whether it is
/// cancelled. It is if that is known of it, or if it follows `leader` and that
/// is known of `leader`. It may be so though nothing is known of either, since
/// others share them.
#[allow(unused_variables)]
#[verifier::external_body]
pub(crate) fn is_cancelled(
    token: &tokio_util::sync::CancellationToken,
    leader: &tokio_util::sync::CancellationToken,
) -> (asked: TokenState)
    ensures
        asked.at() == *token,
        token_cancelled(*token) ==> asked.answer(),
        follows(*token, *leader) && token_cancelled(*leader) ==> asked.answer(),
{
    TokenState { cancelled: token.is_cancelled(), at: Ghost(*token) }
}

/// Calls `AbortHandle::new_pair`: a handle and the registration by which its
/// task learns of an abort. Nothing has aborted the task.
#[verifier::external_body]
pub(crate) fn new_abort_pair() -> (pair: (
    futures::future::AbortHandle,
    futures::future::AbortRegistration,
))
    ensures
        aborts(pair.0, pair.1),
        !handle_aborted(pair.0),
{
    futures::future::AbortHandle::new_pair()
}

/// Calls `AbortHandle::abort`, which aborts the task of `handle` for good. It is
/// the same task as before.
#[verifier::external_body]
pub(crate) fn abort(handle: &mut futures::future::AbortHandle)
    ensures
        handle_aborted(*final(handle)),
        forall|registration: futures::future::AbortRegistration|
            aborts(*old(handle), registration) ==> #[trigger] aborts(*final(handle), registration),
{
    handle.abort()
}

} // verus!
