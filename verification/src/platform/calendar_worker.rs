//! The decisions of the calendar worker, the thread that talks to EventKit:
//! how a request's delivery and reply are reported, and when a stuck worker
//! is replaced. The threads and channels themselves live with the caller.

use vstd::prelude::*;

use crate::text::owned;

verus! {

/// At most this many replaced workers may still be stuck in EventKit before
/// no further replacement is started.
pub const MAX_BLOCKED_WORKERS: usize = 1;

/// How handing a request to the worker went.
#[derive(Clone, Copy, Debug, PartialEq, Eq, Structural)]
pub enum SendOutcome {
    Sent,
    /// The worker still holds the previous request.
    Full,
    /// The worker is gone.
    Disconnected,
}

/// How waiting for the worker's reply ended.
#[derive(Clone, Copy, Debug, PartialEq, Eq, Structural)]
pub enum ReceiveFailure {
    TimedOut,
    Disconnected,
}

/// The result of handing a request to the worker of `generation`, and whether
/// that worker is to be restarted: a worker that cannot take the request is.
pub fn send_calendar_request(generation: u64, outcome: SendOutcome) -> (r: (Result<u64, String>, bool))
    ensures
        outcome == SendOutcome::Sent ==> r.0 == Ok::<u64, String>(generation) && !r.1,
        outcome == SendOutcome::Full ==> (r.0 matches Err(e) && e@
            == "Calendar worker did not recover from its previous request"@) && r.1,
        outcome == SendOutcome::Disconnected ==> (r.0 matches Err(e) && e@
            == "Calendar worker is unavailable"@) && r.1,
{
    match outcome {
        SendOutcome::Sent => (Ok(generation), false),
        SendOutcome::Full => (Err(owned("Calendar worker did not recover from its previous request")), true),
        SendOutcome::Disconnected => (Err(owned("Calendar worker is unavailable")), true),
    }
}

/// The result of waiting for a reply, and whether the worker is to be
/// restarted: a worker that timed out or vanished is.
pub fn receive_calendar_response<T>(reply: Result<T, ReceiveFailure>, timeout_message: &str) -> (r: (
    Result<T, String>,
    bool,
))
    ensures
        match reply {
            Ok(v) => r.0 == Ok::<T, String>(v) && !r.1,
            Err(ReceiveFailure::TimedOut) => (r.0 matches Err(e) && e@ == timeout_message@) && r.1,
            Err(ReceiveFailure::Disconnected) => (r.0 matches Err(e) && e@
                == "Calendar worker is unavailable"@) && r.1,
        },
{
    match reply {
        Ok(v) => (Ok(v), false),
        Err(ReceiveFailure::TimedOut) => (Err(owned(timeout_message)), true),
        Err(ReceiveFailure::Disconnected) => (Err(owned("Calendar worker is unavailable")), true),
    }
}

/// Whether the worker of `failed_generation` is replaced, given the current
/// worker's generation and how many replaced workers are still stuck: only
/// the current worker is replaced (a stale failure changes nothing), and only
/// while fewer than `MAX_BLOCKED_WORKERS` are stuck. The replacement's
/// generation follows the failed one's, wrapping around.
pub fn restart_calendar_worker(current_generation: u64, failed_generation: u64, still_blocked: usize) -> (r:
    Option<u64>)
    ensures
        current_generation == failed_generation && still_blocked < MAX_BLOCKED_WORKERS ==> r
            == Some(
            if failed_generation == u64::MAX {
                0
            } else {
                (failed_generation + 1) as u64
            },
        ),
        !(current_generation == failed_generation && still_blocked < MAX_BLOCKED_WORKERS) ==> r is None,
{
    if current_generation == failed_generation && still_blocked < MAX_BLOCKED_WORKERS {
        Some(failed_generation.wrapping_add(1))
    } else {
        None
    }
}

} // verus!
