//! The client side: ask the daemon to open a URL, and fall back to a direct
//! dispatch unless the user cancelled.
use vstd::prelude::*;
use vstd::string::*;
use crate::dispatch::CANCELED_ERR_MARKER;
use crate::text::{contains_seq, contains_str};

verus! {

/// Why the daemon did not open a URL, as the client sees it.
#[derive(Clone, Debug, PartialEq, Eq)]
pub enum ClientError {
    /// The user cancelled the selection.
    Canceled,
    /// The daemon is absent, the transport failed, or the dispatch failed.
    Failed(String),
}

/// A connection to the daemon.
pub trait MuxieClient {
    fn open_url(&self, url: &str) -> Result<(), ClientError>;
}

/// The error that a failed daemon call with message `msg` stands for: a
/// message that carries the cancellation marker is a cancellation.
pub fn classify_daemon_error(msg: &str) -> (r: ClientError)
    ensures
        contains_seq(msg@, CANCELED_ERR_MARKER@) ==> r == ClientError::Canceled,
        !contains_seq(msg@, CANCELED_ERR_MARKER@) ==> (r matches ClientError::Failed(m) && m@
            == msg@),
{
    if contains_str(msg, CANCELED_ERR_MARKER) {
        ClientError::Canceled
    } else {
        ClientError::Failed(String::from_str(msg))
    }
}

/// What the client does after the daemon answered.
#[derive(Clone, Copy, Debug, PartialEq, Eq)]
pub enum ClientStep {
    /// The daemon opened the URL.
    Done,
    /// The user cancelled: stop, and launch nothing else.
    Canceled,
    /// Dispatch in this process instead.
    FallBack,
}

/// The client's next step for the daemon's answer `reply`.
pub fn after_daemon(reply: &Result<(), ClientError>) -> (r: ClientStep)
    ensures
        r == match reply {
            Ok(()) => ClientStep::Done,
            Err(ClientError::Canceled) => ClientStep::Canceled,
            Err(ClientError::Failed(_)) => ClientStep::FallBack,
        },
{
    match reply {
        Ok(()) => ClientStep::Done,
        Err(ClientError::Canceled) => ClientStep::Canceled,
        Err(ClientError::Failed(_)) => ClientStep::FallBack,
    }
}

/// Opens `url` through the daemon; on a cancellation returns it as is, on
/// any other failure returns what `fallback` returns.
pub fn attempt_open_via_daemon_or_fallback<C: MuxieClient, F: FnOnce() -> Result<(), ClientError>>(
    client: &C,
    url: &str,
    fallback: F,
) -> (r: Result<(), ClientError>)
    requires
        fallback.requires(()),
    ensures
        r == Ok::<(), ClientError>(()) || r == Err::<(), ClientError>(ClientError::Canceled)
            || fallback.ensures((), r),
{
    let reply = client.open_url(url);
    match after_daemon(&reply) {
        ClientStep::Done => Ok(()),
        ClientStep::Canceled => Err(ClientError::Canceled),
        ClientStep::FallBack => fallback(),
    }
}

} // verus!
