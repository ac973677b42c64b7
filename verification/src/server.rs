//! Decisions of the serving loop: how connections are taken on, whether
//! tasks are polled, and when a request to the broker is tried again.
use vstd::prelude::*;
use crate::config::LocalMapping;
use crate::structs::is_error_status;

verus! {

/// How a client connection is served.
#[derive(Debug, Clone, Copy, PartialEq, Eq, Structural)]
pub enum ConnectionRoute {
    /// A `CONNECT` while TLS termination is configured: the relay answers at
    /// once, takes the connection over and serves the requests inside it with
    /// the `CONNECT`'s authority.
    TerminateTls,
    /// Any other request is served as it is.
    Plain,
}

/// Chooses how a request is served.
pub fn connection_route(is_connect: bool, tls_configured: bool) -> (r: ConnectionRoute)
    ensures
        (is_connect && tls_configured) ==> r == ConnectionRoute::TerminateTls,
        !(is_connect && tls_configured) ==> r == ConnectionRoute::Plain,
{
    if is_connect && tls_configured {
        ConnectionRoute::TerminateTls
    } else {
        ConnectionRoute::Plain
    }
}

/// Tasks are polled (the receiving side runs) only where local targets are
/// configured and an API key to listen at the broker was given.
pub fn polls_for_tasks(local: &LocalMapping, has_api_key: bool) -> (r: bool)
    ensures
        r == (local@.len() > 0 && has_api_key),
{
    local.entries.len() > 0 && has_api_key
}

/// How one attempt to reach the broker ended.
#[derive(Debug, Clone, Copy, PartialEq, Eq, Structural)]
pub enum AttemptOutcome {
    /// The request timed out.
    Timeout,
    /// The request failed otherwise.
    Failed,
    /// A reply with this status came.
    Reply(u16),
}

/// What to do after an attempt.
#[derive(Debug, Clone, Copy, PartialEq, Eq, Structural)]
pub enum RetryAction {
    /// Hand the reply out.
    Succeed,
    /// Try again at once.
    Retry,
    /// Wait a second, then try again.
    RetryAfterPause,
    /// Hand the failure out.
    GiveUp,
}

/// What to do after the attempt numbered `tries` (from 1) with `retries`
/// allowed: a timeout is tried again while `tries < retries`; a reply that
/// is no error ends the loop; an error reply is tried again (after a pause)
/// only once `tries` exceeds `retries`.
pub open spec fn retry_action(tries: nat, retries: nat, outcome: AttemptOutcome) -> RetryAction {
    match outcome {
        AttemptOutcome::Timeout => if tries < retries {
            RetryAction::Retry
        } else {
            RetryAction::GiveUp
        },
        AttemptOutcome::Failed => RetryAction::GiveUp,
        AttemptOutcome::Reply(code) => if !is_error_status(code) {
            RetryAction::Succeed
        } else if tries > retries {
            RetryAction::RetryAfterPause
        } else {
            RetryAction::GiveUp
        },
    }
}

/// The attempts made so far at one request to the broker.
#[derive(Debug)]
pub struct BeamRetry {
    tries: usize,
    retries: usize,
}

impl BeamRetry {
    pub closed spec fn tries(&self) -> nat {
        self.tries as nat
    }

    pub closed spec fn retries(&self) -> nat {
        self.retries as nat
    }

    /// No attempt made yet, `retries` allowed.
    pub fn new(retries: usize) -> (r: BeamRetry)
        ensures
            r.tries() == 0,
            r.retries() == retries,
    {
        BeamRetry { tries: 0, retries }
    }

    /// Whether one more attempt can be counted.
    pub fn can_count(&self) -> (r: bool)
        ensures
            r == (self.tries() < usize::MAX),
    {
        self.tries < usize::MAX
    }

    /// Counts the attempt about to be made.
    pub fn start_attempt(&mut self)
        requires
            old(self).tries() < usize::MAX,
        ensures
            final(self).tries() == old(self).tries() + 1,
            final(self).retries() == old(self).retries(),
    {
        self.tries = self.tries + 1;
    }

    /// What to do after the attempt just counted ended with `outcome`.
    pub fn after_attempt(&self, outcome: AttemptOutcome) -> (r: RetryAction)
        ensures
            r == retry_action(self.tries(), self.retries(), outcome),
    {
        match outcome {
            AttemptOutcome::Timeout => if self.tries < self.retries {
                RetryAction::Retry
            } else {
                RetryAction::GiveUp
            },
            AttemptOutcome::Failed => RetryAction::GiveUp,
            AttemptOutcome::Reply(code) => if !(400 <= code && code < 600) {
                RetryAction::Succeed
            } else if self.tries > self.retries {
                RetryAction::RetryAfterPause
            } else {
                RetryAction::GiveUp
            },
        }
    }
}

/// A timed-out request is tried at most `retries` times in all, and a reply
/// that is no error is always handed out.
pub proof fn law_retry_bounds(tries: nat, retries: nat, code: u16)
    ensures
        tries >= retries ==> retry_action(tries, retries, AttemptOutcome::Timeout)
            == RetryAction::GiveUp,
        !is_error_status(code) ==> retry_action(tries, retries, AttemptOutcome::Reply(code))
            == RetryAction::Succeed,
{
}

} // verus!
