//! Starting a meeting's recording from its prompt, and following it.

use vstd::prelude::*;

use super::model::{copy_strings, Meeting, MeetingPrompt};
use super::scheduler::{
    auto_record_eligible, eligible, may_be_current, meeting_is_current, notification_id,
    notification_id_spec, still_listed,
};
use super::state::start::{restore_start_prompt_spec, take_start_prompt_spec};
use super::state::{
    clear_active_spec, defer_end_prompt_spec, matches_active_end_prompt_spec, new_active, sat_add,
    with_active, MeetingSchedulerState, END_REMINDER_DELAY_MS,
};
use crate::platform::calendar::{event_views, CalendarEvent};
use crate::settings::model::AppSettings;
use crate::recording::model::ScheduledMeeting;
use crate::text::{copy_string, owned};

verus! {

/// Why a meeting's recording did not start.
#[derive(Clone, Debug, PartialEq, Eq)]
pub struct MeetingStartError {
    pub title: String,
    pub message: String,
    /// Whether the prompt was kept so the user can try again.
    pub retryable: bool,
}

/// Hands the recording context the calendar facts a thread should remember it
/// was created from.
pub fn scheduled_meeting(meeting: &Meeting) -> (r: ScheduledMeeting)
    ensures
        r.title@ == meeting@.title,
        r.event_id@ == meeting@.id,
        r.calendar_id@ == meeting@.calendar_id,
        r.attendees.deep_view() == meeting@.attendees,
        r.start_at_ms == meeting.start_at_ms,
        r.end_at_ms == meeting.end_at_ms,
{
    ScheduledMeeting {
        title: copy_string(&meeting.title),
        event_id: copy_string(&meeting.id),
        calendar_id: copy_string(&meeting.calendar_id),
        attendees: copy_strings(&meeting.attendees),
        start_at_ms: meeting.start_at_ms,
        end_at_ms: meeting.end_at_ms,
    }
}

/// Runs `start` for a consumed prompt; on failure the prompt is put back so
/// the user can retry, and the error says so.
pub fn retryable_start<T, S: FnOnce() -> Result<T, String>>(
    scheduler: &mut MeetingSchedulerState,
    prompt: &MeetingPrompt,
    start: S,
) -> (r: Result<T, MeetingStartError>)
    requires
        old(scheduler).wf(),
        call_requires(start, ()),
    ensures
        final(scheduler).wf(),
        exists|w: Result<T, String>|
            {
                &&& call_ensures(start, (), w)
                &&& match w {
                    Ok(t) => r == Ok::<T, MeetingStartError>(t) && final(scheduler)@ == old(
                        scheduler,
                    )@,
                    Err(m) => {
                        &&& final(scheduler)@ == restore_start_prompt_spec(old(scheduler)@, prompt@)
                        &&& r matches Err(e) && e.title@ == prompt@.meeting.title && e.message == m
                            && e.retryable
                    },
                }
            },
{
    let w = start();
    let ghost w0 = w;
    match w {
        Ok(t) => Ok(t),
        Err(message) => {
            scheduler.restore_start_prompt(prompt.duplicate());
            Err(MeetingStartError { title: copy_string(&prompt.meeting.title), message, retryable: true })
        },
    }
}

/// Starts the recording of the prompt `request_id`: the prompt is consumed,
/// then checked with `is_current`; a stale prompt is dropped, a failed start
/// restores it, and `after_success` runs only once recording has started.
pub fn orchestrate_start<
    T,
    C: FnOnce(&MeetingPrompt) -> bool,
    S: FnOnce(&MeetingPrompt) -> Result<T, String>,
    A: FnOnce(&MeetingPrompt, &T),
>(
    scheduler: &mut MeetingSchedulerState,
    request_id: &str,
    is_current: C,
    start: S,
    after_success: A,
) -> (r: Result<T, MeetingStartError>)
    requires
        old(scheduler).wf(),
        forall|p: MeetingPrompt| call_requires(is_current, (&p,)),
        forall|p: MeetingPrompt| call_requires(start, (&p,)),
        forall|p: MeetingPrompt, t: T| call_requires(after_success, (&p, &t)),
    ensures
        final(scheduler).wf(),
        take_start_prompt_spec(old(scheduler)@, request_id@).1 is None ==> {
            &&& final(scheduler)@ == old(scheduler)@
            &&& r matches Err(e) && e.title@ == "Meeting"@ && e.message@
                == "This meeting prompt is no longer available"@ && !e.retryable
        },
        take_start_prompt_spec(old(scheduler)@, request_id@).1 matches Some(taken) ==> exists|
            p: MeetingPrompt,
            current: bool,
        |
            {
                &&& p@ == taken
                &&& call_ensures(is_current, (&p,), current)
                &&& !current ==> {
                    &&& final(scheduler)@ == take_start_prompt_spec(old(scheduler)@, request_id@).0
                    &&& r matches Err(e) && e.title@ == taken.meeting.title && e.message@
                        == "This meeting is no longer available to record"@ && !e.retryable
                }
                &&& current ==> exists|s: Result<T, String>|
                    {
                        &&& call_ensures(start, (&p,), s)
                        &&& match s {
                            Ok(t) => {
                                &&& r == Ok::<T, MeetingStartError>(t)
                                &&& final(scheduler)@ == take_start_prompt_spec(
                                    old(scheduler)@,
                                    request_id@,
                                ).0
                                &&& call_ensures(after_success, (&p, &t), ())
                            },
                            Err(m) => {
                                &&& final(scheduler)@ == restore_start_prompt_spec(
                                    take_start_prompt_spec(old(scheduler)@, request_id@).0,
                                    taken,
                                )
                                &&& r matches Err(e) && e.title@ == taken.meeting.title
                                    && e.message == m && e.retryable
                            },
                        }
                    }
            },
{
    let prompt = match scheduler.take_start_prompt(request_id) {
        Some(prompt) => prompt,
        None => {
            return Err(
                MeetingStartError {
                    title: owned("Meeting"),
                    message: owned("This meeting prompt is no longer available"),
                    retryable: false,
                },
            );
        },
    };
    let ghost taken_state = scheduler@;
    let current = is_current(&prompt);
    if !current {
        return Err(
            MeetingStartError {
                title: prompt.meeting.title,
                message: owned("This meeting is no longer available to record"),
                retryable: false,
            },
        );
    }
    let s = start(&prompt);
    let ghost s0 = s;
    match s {
        Ok(started) => {
            after_success(&prompt, &started);
            Ok(started)
        },
        Err(message) => {
            scheduler.restore_start_prompt(prompt.duplicate());
            Err(
                MeetingStartError {
                    title: copy_string(&prompt.meeting.title),
                    message,
                    retryable: true,
                },
            )
        },
    }
}

/// What follows a started meeting recording: the meeting is tracked for its
/// end when end reminders are on or the recording stops automatically (an
/// automatic start stops automatically), provided a session is running.
pub fn track_started_meeting(
    scheduler: &mut MeetingSchedulerState,
    prompt: &MeetingPrompt,
    end_reminders_enabled: bool,
    active_session_id: Option<u64>,
)
    requires
        old(scheduler).wf(),
    ensures
        final(scheduler).wf(),
        final(scheduler)@ == if (end_reminders_enabled || prompt.auto_start)
            && active_session_id is Some {
            with_active(
                old(scheduler)@,
                new_active(
                    prompt@.meeting,
                    active_session_id->0,
                    notification_id_spec("end"@, prompt@.meeting.id),
                    prompt.auto_start,
                ),
            )
        } else {
            old(scheduler)@
        },
{
    let auto_stop = prompt.auto_start;
    if end_reminders_enabled || auto_stop {
        match active_session_id {
            Some(session_id) => {
                let end_id = notification_id("end", prompt.meeting.id.as_str());
                scheduler.set_active(prompt.meeting.duplicate(), session_id, end_id, auto_stop);
            },
            None => {},
        }
    }
}

/// Whether a consumed prompt may still start its recording: the calendar
/// still lists its meeting as current (read through `lookup`, as
/// `meeting_is_current` does), and an automatic prompt's meeting is still
/// eligible for automatic recording.
pub fn prompt_may_start<F: FnOnce(String, u64, u64) -> Result<Vec<CalendarEvent>, String>>(
    settings: &AppSettings,
    prompt: &MeetingPrompt,
    now_ms: Option<u64>,
    lookup: F,
) -> (r: bool)
    requires
        forall|c: String, a: u64, b: u64| call_requires(lookup, (c, a, b)),
    ensures
        !may_be_current(settings@, prompt@.meeting, now_ms) ==> !r,
        may_be_current(settings@, prompt@.meeting, now_ms) ==> exists|
            c: String,
            w: Result<Vec<CalendarEvent>, String>,
        |
            {
                &&& c@ == prompt@.meeting.calendar_id
                &&& call_ensures(
                    lookup,
                    (
                        c,
                        super::state::sat_sub(prompt@.meeting.start_at_ms, 1),
                        super::state::sat_add(prompt@.meeting.end_at_ms, 1),
                    ),
                    w,
                )
                &&& r == (match w {
                    Ok(events) => still_listed(prompt@.meeting, event_views(events@)),
                    Err(_) => false,
                } && (!prompt.auto_start || eligible(settings@, prompt@.meeting)))
            },
{
    meeting_is_current(settings, &prompt.meeting, now_ms, lookup) && (!prompt.auto_start
        || auto_record_eligible(settings, &prompt.meeting))
}

/// What answering "stop recording" on an end prompt leads to.
#[derive(Clone, Debug, PartialEq, Eq)]
pub enum MeetingStop {
    /// No recording is running: the meeting was forgotten, and its end
    /// prompt, if any, is to be withdrawn.
    Forgotten(Option<String>),
    /// The prompt belongs to another recording; nothing happens.
    Ignored,
    /// Stop the recording of this session.
    Stop(u64),
}

/// Decides what "stop recording" on the end prompt `request_id` does, given
/// the session of the running recording, if any.
pub fn stop_meeting_recording(
    scheduler: &mut MeetingSchedulerState,
    request_id: &str,
    active_session_id: Option<u64>,
) -> (r: MeetingStop)
    requires
        old(scheduler).wf(),
    ensures
        final(scheduler).wf(),
        match active_session_id {
            None => r matches MeetingStop::Forgotten(id) && (final(scheduler)@, id.deep_view())
                == clear_active_spec(old(scheduler)@),
            Some(session) => final(scheduler)@ == old(scheduler)@ && if matches_active_end_prompt_spec(
                old(scheduler)@,
                request_id@,
                session,
            ) {
                r == MeetingStop::Stop(session)
            } else {
                r == MeetingStop::Ignored
            },
        },
{
    match active_session_id {
        None => MeetingStop::Forgotten(scheduler.clear_active()),
        Some(session_id) => if scheduler.matches_active_end_prompt(request_id, session_id) {
            MeetingStop::Stop(session_id)
        } else {
            MeetingStop::Ignored
        },
    }
}

/// After a stop asked for by the user: whether the recording stopped
/// (`Ok(true)`) or was already gone (`Ok(false)`), the meeting is forgotten
/// and its end prompt's id returned for withdrawal; a failed stop changes
/// nothing.
pub fn finish_meeting_stop(scheduler: &mut MeetingSchedulerState, outcome: &Result<bool, String>) -> (r:
    Option<String>)
    requires
        old(scheduler).wf(),
    ensures
        final(scheduler).wf(),
        outcome is Ok ==> (final(scheduler)@, r.deep_view()) == clear_active_spec(old(scheduler)@),
        outcome is Err ==> final(scheduler)@ == old(scheduler)@ && r is None,
{
    match outcome {
        Ok(_) => scheduler.clear_active(),
        Err(_) => None,
    }
}

/// What the user chose on a meeting notification.
#[derive(Clone, Copy, Debug, PartialEq, Eq, Structural)]
pub enum MeetingAction {
    Start,
    Skip,
    Stop,
    Keep,
    /// Not a meeting action (the notification itself was opened or dismissed).
    Other,
}

/// The meeting action a notification response's action id names.
pub fn notification_action(action_id: &str) -> (r: MeetingAction)
    ensures
        action_id@ == "meeting-start"@ ==> r == MeetingAction::Start,
        action_id@ == "meeting-skip"@ ==> r == MeetingAction::Skip,
        action_id@ == "meeting-stop"@ ==> r == MeetingAction::Stop,
        action_id@ == "meeting-keep-recording"@ ==> r == MeetingAction::Keep,
        action_id@ != "meeting-start"@ && action_id@ != "meeting-skip"@ && action_id@
            != "meeting-stop"@ && action_id@ != "meeting-keep-recording"@ ==> r
            == MeetingAction::Other,
{
    proof {
        reveal_strlit("meeting-start");
        reveal_strlit("meeting-skip");
        reveal_strlit("meeting-stop");
        reveal_strlit("meeting-keep-recording");
        assert("meeting-start"@.len() == 13);
        assert("meeting-skip"@.len() == 12);
        assert("meeting-stop"@.len() == 12);
        assert("meeting-keep-recording"@.len() == 22);
        assert("meeting-skip"@[9] != "meeting-stop"@[9]);
    }
    if crate::text::str_eq(action_id, "meeting-start") {
        MeetingAction::Start
    } else if crate::text::str_eq(action_id, "meeting-skip") {
        MeetingAction::Skip
    } else if crate::text::str_eq(action_id, "meeting-stop") {
        MeetingAction::Stop
    } else if crate::text::str_eq(action_id, "meeting-keep-recording") {
        MeetingAction::Keep
    } else {
        MeetingAction::Other
    }
}

/// "Skip": the start prompt is consumed without recording.
pub fn skip_meeting(scheduler: &mut MeetingSchedulerState, request_id: &str)
    requires
        old(scheduler).wf(),
    ensures
        final(scheduler).wf(),
        final(scheduler)@ == take_start_prompt_spec(old(scheduler)@, request_id@).0,
{
    let _ = scheduler.take_start_prompt(request_id);
}

/// "Keep recording": the end prompt comes back later and an automatic stop
/// not yet claimed is cancelled; nothing happens when the clock cannot be read.
pub fn keep_recording(scheduler: &mut MeetingSchedulerState, request_id: &str, now_ms: Option<u64>)
    requires
        old(scheduler).wf(),
    ensures
        final(scheduler).wf(),
        now_ms is None ==> final(scheduler)@ == old(scheduler)@,
        now_ms matches Some(now) ==> final(scheduler)@ == defer_end_prompt_spec(
            old(scheduler)@,
            request_id@,
            sat_add(now, END_REMINDER_DELAY_MS),
        ),
{
    match now_ms {
        Some(now) => scheduler.defer_end_prompt_for_later(request_id, now),
        None => {},
    }
}

} // verus!
