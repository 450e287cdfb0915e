//! End-of-meeting reminders and automatic stops for the active recording.

use vstd::prelude::*;

use crate::meetings::model::{DueEndPrompt, DueEndView};
use crate::meetings::state::{
    claim_due_auto_stop_spec, clear_active_spec, defer_end_prompt_spec, due_end_prompt_spec,
    retry_auto_stop_spec, sat_add, MeetingSchedulerState, SchedulerView, END_REMINDER_DELAY_MS,
};

verus! {

/// What the end check asks of the app.
#[derive(Debug, PartialEq, Eq)]
pub enum EndCheck {
    /// Nothing to do.
    Idle,
    /// Show this end prompt.
    ShowEndPrompt(DueEndPrompt),
    /// Stop the recording of this session; its automatic stop is claimed.
    StopRecording { request_id: String, session_id: u64 },
}

pub enum EndCheckView {
    Idle,
    Show(DueEndView),
    Stop(Seq<char>, u64),
}

pub open spec fn end_check_view(c: EndCheck) -> EndCheckView {
    match c {
        EndCheck::Idle => EndCheckView::Idle,
        EndCheck::ShowEndPrompt(p) => EndCheckView::Show(p@),
        EndCheck::StopRecording { request_id, session_id } => EndCheckView::Stop(
            request_id@,
            session_id,
        ),
    }
}

/// A due end prompt is shown first; otherwise a due automatic stop is carried
/// out when notifications are authorized, and postponed like "keep recording"
/// when they are not (a silent stop would surprise the user).
pub open spec fn end_check_spec(
    v: SchedulerView,
    session: Option<u64>,
    now: u64,
    notifications_authorized: bool,
) -> (SchedulerView, EndCheckView) {
    match session {
        None => (v, EndCheckView::Idle),
        Some(s) => {
            let (v1, due) = due_end_prompt_spec(v, now, s);
            match due {
                Some(d) => (v1, EndCheckView::Show(d)),
                None => {
                    let (v2, claimed) = claim_due_auto_stop_spec(v1, now, s);
                    match claimed {
                        None => (v2, EndCheckView::Idle),
                        Some(id) => if notifications_authorized {
                            (v2, EndCheckView::Stop(id, s))
                        } else {
                            (
                                defer_end_prompt_spec(
                                    retry_auto_stop_spec(v2, id),
                                    id,
                                    sat_add(now, END_REMINDER_DELAY_MS),
                                ),
                                EndCheckView::Idle,
                            )
                        },
                    }
                },
            }
        },
    }
}

/// Checks the active recording's end reminder and automatic stop.
pub fn check(
    scheduler: &mut MeetingSchedulerState,
    active_session_id: Option<u64>,
    now: u64,
    notifications_authorized: bool,
) -> (r: EndCheck)
    requires
        old(scheduler).wf(),
    ensures
        final(scheduler).wf(),
        (final(scheduler)@, end_check_view(r)) == end_check_spec(
            old(scheduler)@,
            active_session_id,
            now,
            notifications_authorized,
        ),
{
    let session_id = match active_session_id {
        Some(s) => s,
        None => {
            return EndCheck::Idle;
        },
    };
    match scheduler.due_end_prompt(now, session_id) {
        Some(prompt) => {
            return EndCheck::ShowEndPrompt(prompt);
        },
        None => {},
    }
    match scheduler.claim_due_auto_stop(now, session_id) {
        Some(request_id) => {
            if notifications_authorized {
                EndCheck::StopRecording { request_id, session_id }
            } else {
                scheduler.retry_auto_stop(request_id.as_str());
                scheduler.defer_end_prompt_for_later(request_id.as_str(), now);
                EndCheck::Idle
            }
        },
        None => EndCheck::Idle,
    }
}

/// Applies the outcome of a scheduled stop: once the recording has stopped
/// (`Ok(true)`) or was already gone (`Ok(false)`) the meeting is forgotten and
/// its end prompt's id is returned for removal; a failed stop is released so it
/// is retried.
pub fn settle_scheduled_stop(
    scheduler: &mut MeetingSchedulerState,
    request_id: &str,
    outcome: Result<bool, String>,
) -> (r: Option<String>)
    requires
        old(scheduler).wf(),
    ensures
        final(scheduler).wf(),
        match outcome {
            Ok(_) => (final(scheduler)@, r.deep_view()) == clear_active_spec(old(scheduler)@),
            Err(_) => final(scheduler)@ == retry_auto_stop_spec(old(scheduler)@, request_id@)
                && r is None,
        },
{
    match outcome {
        Ok(_) => scheduler.clear_active(),
        Err(_) => {
            scheduler.retry_auto_stop(request_id);
            None
        },
    }
}

} // verus!
