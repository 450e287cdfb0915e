//! Whether a chosen thread can take a new recording.

use vstd::prelude::*;

use crate::text::owned;
use crate::threads::model::{ThreadDetail, ThreadStatus};

verus! {

/// How a recording uses an existing thread.
#[derive(Debug, PartialEq, Eq)]
pub enum ThreadSelection {
    /// Empty existing thread: record into it as if new.
    Reuse(Box<ThreadDetail>),
    /// Existing thread with content: append a new session to it.
    Resume(Box<ThreadDetail>),
}

/// A busy thread cannot take a recording; an empty one is reused, one with
/// content is resumed.
pub fn classify_selected_thread(thread: ThreadDetail) -> (r: Result<ThreadSelection, String>)
    ensures
        !(thread.summary.status matches ThreadStatus::Idle) ==> (r matches Err(e) && e@
            == "The selected thread is busy recording or transcribing"@),
        thread.summary.status matches ThreadStatus::Idle ==> match r {
            Ok(ThreadSelection::Reuse(t)) => thread.summary.segment_count == 0 && *t == thread,
            Ok(ThreadSelection::Resume(t)) => thread.summary.segment_count != 0 && *t == thread,
            Err(_) => false,
        },
{
    if thread.summary.status.is_busy() {
        return Err(owned("The selected thread is busy recording or transcribing"));
    }
    if thread.summary.segment_count == 0 {
        return Ok(ThreadSelection::Reuse(Box::new(thread)));
    }
    Ok(ThreadSelection::Resume(Box::new(thread)))
}

} // verus!
