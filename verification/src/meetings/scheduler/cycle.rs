//! One pass of the meeting scheduler: what it asks of the app on each poll.

use vstd::prelude::*;

use super::end::{check, end_check_spec, end_check_view, EndCheck};
use super::prompts::StartPromptPlan;
use super::{reconcile_active_recording, refresh_outcome, refresh_start_prompts};
use crate::meetings::state::{
    clear_active_spec, clear_if_session_differs_spec, empty_scheduler, lists_keys_once,
    next_revision, MeetingSchedulerState,
};
use crate::platform::calendar::CalendarEvent;
use crate::settings::model::AppSettings;

verus! {

/// What one pass asks of the app.
pub struct TickPlan {
    /// Notifications to withdraw.
    pub withdrawn: Vec<String>,
    /// What the end check asks for.
    pub end: EndCheck,
    /// The calendar refresh's outcome; `None` when no refresh ran.
    pub refresh: Option<Result<StartPromptPlan, String>>,
}

pub open spec fn optional_id(id: Option<Seq<char>>) -> Seq<Seq<char>> {
    match id {
        Some(i) => seq![i],
        None => Seq::empty(),
    }
}

/// One pass of the scheduler. With reminders off everything is forgotten and
/// withdrawn. Otherwise the active meeting is reconciled with the running
/// recording (`active_session_id`); then, when the clock could be read
/// (`now_ms`), the end of the active meeting is checked, and the start
/// prompts are refreshed from the calendar read through `fetch`. The end
/// check does not depend on the calendar, so a failed read never skips it.
pub fn tick<F: FnOnce(Vec<String>, u64, u64) -> Result<Vec<CalendarEvent>, String>>(
    scheduler: &mut MeetingSchedulerState,
    settings: &AppSettings,
    active_session_id: Option<u64>,
    now_ms: Option<u64>,
    notifications_authorized: bool,
    calendar_authorization: &str,
    fetch: F,
) -> (r: TickPlan)
    requires
        old(scheduler).wf(),
        forall|ids: Vec<String>, a: u64, b: u64| call_requires(fetch, (ids, a, b)),
    ensures
        final(scheduler).wf(),
        !settings.meeting_reminders_enabled ==> {
            &&& final(scheduler)@ == empty_scheduler(next_revision(old(scheduler)@.revision))
            &&& r.end == EndCheck::Idle
            &&& r.refresh is None
            &&& match old(scheduler)@.active {
                Some(a) => r.withdrawn.deep_view().len() > 0 && r.withdrawn.deep_view().last()
                    == a.end_request_id && lists_keys_once(
                    r.withdrawn.deep_view().drop_last(),
                    old(scheduler)@.prompts,
                ),
                None => lists_keys_once(r.withdrawn.deep_view(), old(scheduler)@.prompts),
            }
        },
        settings.meeting_reminders_enabled ==> {
            let (reconciled, stale) = match active_session_id {
                Some(session) => clear_if_session_differs_spec(old(scheduler)@, session),
                None => clear_active_spec(old(scheduler)@),
            };
            &&& r.withdrawn.deep_view() == optional_id(stale)
            &&& now_ms is None ==> final(scheduler)@ == reconciled && r.end == EndCheck::Idle
                && r.refresh is None
            &&& now_ms matches Some(now) ==> {
                let (checked, end) = end_check_spec(
                    reconciled,
                    active_session_id,
                    now,
                    notifications_authorized,
                );
                &&& end_check_view(r.end) == end
                &&& r.refresh matches Some(refresh) && refresh_outcome(
                    checked,
                    settings@,
                    now,
                    calendar_authorization@,
                    fetch,
                    final(scheduler)@,
                    refresh,
                )
            }
        },
{
    if !settings.meeting_reminders_enabled {
        let withdrawn = scheduler.reset();
        return TickPlan { withdrawn, end: EndCheck::Idle, refresh: None };
    }
    let stale = reconcile_active_recording(scheduler, active_session_id);
    let mut withdrawn: Vec<String> = Vec::new();
    match stale {
        Some(id) => {
            withdrawn.push(id);
            proof {
                assert(withdrawn.deep_view() =~= seq![withdrawn@[0]@]);
            }
        },
        None => {
            proof {
                assert(withdrawn.deep_view() =~= Seq::<Seq<char>>::empty());
            }
        },
    }
    let now = match now_ms {
        Some(t) => t,
        None => {
            return TickPlan { withdrawn, end: EndCheck::Idle, refresh: None };
        },
    };
    let end = check(scheduler, active_session_id, now, notifications_authorized);
    let refresh = refresh_start_prompts(scheduler, settings, now, calendar_authorization, fetch);
    TickPlan { withdrawn, end, refresh: Some(refresh) }
}

} // verus!
