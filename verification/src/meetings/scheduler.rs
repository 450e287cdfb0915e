//! Scheduling policy: which calendar events are meetings, when prompts are
//! due, how notification ids are formed, and the polling cadence.

use std::hash::{BuildHasher, BuildHasherDefault, DefaultHasher};

use vstd::prelude::*;

use super::model::{copy_strings, Meeting, MeetingView};
use super::state::{
    clear_active_spec, clear_if_session_differs_spec, lists_keys_once, sat_add, sat_sub,
    MeetingSchedulerState, SchedulerView,
};
use super::state::start::{prompts_outside, reconcile_start_prompts_spec};
use prompts::{meetings_of, notice_views, prompt_pass, reconcile_start_prompts, timely_ids, StartPromptPlan};
use crate::platform::calendar::{authorization_error, event_views, events_by_start, upcoming_events};
use crate::platform::calendar::{CalendarEvent, CalendarParticipant, EventView, ParticipantView};
use crate::settings::model::{AppSettings, SettingsView};
use crate::text::{copy_string, hex_digits, is_blank, owned, push_decimal, push_hex16, trim, trimmed, decimal};

pub mod end;
pub mod prompts;
pub mod cycle;

verus! {

/// The calendar is polled every fifteen seconds (in nanoseconds).
pub const POLL_INTERVAL_NANOS: u128 = 15_000_000_000;

/// Start prompts look back fifteen minutes for meetings already under way.
pub const LOOK_BACK_MS: u64 = 900000;

/// Start prompts look twelve hours ahead.
pub const LOOK_AHEAD_MS: u64 = 43200000;

/// A start action stays available for ten minutes after the scheduled start.
pub const LATE_START_GRACE_MS: u64 = 600000;

/// An armed automatic start waits at least fifteen seconds after its warning.
pub const AUTO_START_SKIP_WINDOW_MS: u64 = 15000;

/// The time left until the next poll, given how long this cycle took.
pub fn next_poll_delay(elapsed_nanos: u128) -> (r: u128)
    ensures
        r == if elapsed_nanos < POLL_INTERVAL_NANOS {
            (POLL_INTERVAL_NANOS - elapsed_nanos) as u128
        } else {
            0
        },
{
    POLL_INTERVAL_NANOS.saturating_sub(elapsed_nanos)
}

/// One polling cycle: the end-reminder check runs first and does not depend
/// on the calendar refresh, whose outcome is the cycle's outcome.
pub fn run_calendar_cycle<E: FnOnce(), R: FnOnce() -> Result<(), String>>(
    check_end_reminder: E,
    refresh_start_prompts: R,
) -> (r: Result<(), String>)
    requires
        call_requires(check_end_reminder, ()),
        call_requires(refresh_start_prompts, ()),
    ensures
        call_ensures(check_end_reminder, (), ()),
        call_ensures(refresh_start_prompts, (), r),
{
    check_end_reminder();
    refresh_start_prompts()
}

/// The calendar window searched for start prompts around `now`.
pub fn refresh_window(now_ms: u64) -> (r: (u64, u64))
    ensures
        r == (sat_sub(now_ms, LOOK_BACK_MS), sat_add(now_ms, LOOK_AHEAD_MS)),
{
    (now_ms.saturating_sub(LOOK_BACK_MS), now_ms.saturating_add(LOOK_AHEAD_MS))
}

/// The last calendar read error, kept so a failure is reported once.
pub struct CalendarReadStatus {
    error: Option<String>,
}

/// A change in whether the calendar can be read.
#[derive(Clone, Debug, PartialEq, Eq)]
pub enum CalendarReadTransition {
    Failed(String),
    Recovered,
}

pub enum TransitionView {
    Failed(Seq<char>),
    Recovered,
}

pub open spec fn transition_view(t: Option<CalendarReadTransition>) -> Option<TransitionView> {
    match t {
        Some(CalendarReadTransition::Failed(e)) => Some(TransitionView::Failed(e@)),
        Some(CalendarReadTransition::Recovered) => Some(TransitionView::Recovered),
        None => None,
    }
}

impl View for CalendarReadStatus {
    type V = Option<Seq<char>>;

    closed spec fn view(&self) -> Option<Seq<char>> {
        match self.error {
            Some(e) => Some(e@),
            None => None,
        }
    }
}

/// A read outcome as a value: `Ok` or the error message.
pub open spec fn read_result(r: Result<(), String>) -> Result<(), Seq<char>> {
    match r {
        Ok(()) => Ok(()),
        Err(e) => Err(e@),
    }
}

/// Reports a failure when the error changes, and a recovery once after a
/// failure; repeating the same outcome reports nothing.
pub open spec fn read_status_update(last: Option<Seq<char>>, result: Result<(), Seq<char>>) -> (
    Option<Seq<char>>,
    Option<TransitionView>,
) {
    match result {
        Ok(()) => if last is Some {
            (None, Some(TransitionView::Recovered))
        } else {
            (None, None)
        },
        Err(e) => if last == Some(e) {
            (last, None)
        } else {
            (Some(e), Some(TransitionView::Failed(e)))
        },
    }
}

impl Default for CalendarReadStatus {
    fn default() -> (r: Self)
        ensures
            r@ is None,
    {
        CalendarReadStatus { error: None }
    }
}

impl CalendarReadStatus {
    /// Records the outcome of a calendar read and reports what changed.
    pub fn update(&mut self, result: &Result<(), String>) -> (r: Option<CalendarReadTransition>)
        ensures
            (final(self)@, transition_view(r)) == read_status_update(
                old(self)@,
                read_result(*result),
            ),
    {
        match result {
            Ok(()) => {
                if self.error.is_some() {
                    self.error = None;
                    Some(CalendarReadTransition::Recovered)
                } else {
                    None
                }
            },
            Err(error) => {
                let same = match &self.error {
                    Some(last) => *last == *error,
                    None => false,
                };
                if same {
                    None
                } else {
                    self.error = Some(copy_string(error));
                    Some(CalendarReadTransition::Failed(copy_string(error)))
                }
            },
        }
    }
}

/// What the standard library's default hasher (`DefaultHasher`, whose keys
/// are fixed) yields for the string `s`.
pub uninterp spec fn default_hash(s: Seq<char>) -> u64;

/// Calls `BuildHasher::hash_one` on a `BuildHasherDefault<DefaultHasher>`,
/// hashing the meeting id as `str::hash` feeds it. Trusted: the result is
/// `default_hash` of the id, i.e. it depends on the id alone (`DefaultHasher`
/// built this way uses fixed keys); nothing more is claimed of its value.
#[verifier::external_body]
fn hash_meeting_id(meeting_id: &str) -> (h: u64)
    ensures
        h == default_hash(meeting_id@),
{
    BuildHasherDefault::<DefaultHasher>::default().hash_one(meeting_id)
}

/// The notification request id of a prompt of kind `kind` for a meeting:
/// `just-notes-<kind>-<16 hex digits of the meeting id's hash>`.
pub open spec fn notification_id_spec(kind: Seq<char>, meeting_id: Seq<char>) -> Seq<char> {
    "just-notes-"@ + kind + "-"@ + hex_digits(default_hash(meeting_id) as nat, 16)
}

/// The notification request id of a prompt of kind `kind` for a meeting.
pub fn notification_id(kind: &str, meeting_id: &str) -> (r: String)
    ensures
        r@ == notification_id_spec(kind@, meeting_id@),
{
    let mut r = owned("just-notes-");
    r.append(kind);
    r.append("-");
    push_hex16(&mut r, hash_meeting_id(meeting_id));
    r
}

/// The name shown for an invitee: its trimmed name, else its trimmed address;
/// the current user and blank identities are left out.
pub open spec fn participant_label_spec(p: ParticipantView) -> Option<Seq<char>> {
    if p.is_current_user {
        None
    } else if p.name is Some && !is_blank(p.name->0) {
        Some(trim(p.name->0))
    } else if p.email is Some && !is_blank(p.email->0) {
        Some(trim(p.email->0))
    } else {
        None
    }
}

/// The attendee names of an event: invite order, each name once.
pub open spec fn attendees_of(ps: Seq<ParticipantView>) -> Seq<Seq<char>>
    decreases ps.len(),
{
    if ps.len() == 0 {
        Seq::empty()
    } else {
        let a = attendees_of(ps.drop_last());
        match participant_label_spec(ps.last()) {
            Some(x) => if a.contains(x) {
                a
            } else {
                a.push(x)
            },
            None => a,
        }
    }
}

/// The title shown for an event: blank titles get a safe fallback.
pub open spec fn meeting_title(title: Seq<char>) -> Seq<char> {
    if is_blank(title) {
        "Calendar meeting"@
    } else {
        title
    }
}

/// Whether a calendar event is not a meeting: all-day, canceled, marked free,
/// or declined by the current user.
pub open spec fn excluded_event(e: EventView) -> bool {
    e.all_day || e.canceled || e.free || e.current_user_declined
}

/// The meeting a calendar event stands for, if it is one.
pub open spec fn meeting_of_event(e: EventView) -> Option<MeetingView> {
    if excluded_event(e) {
        None
    } else {
        Some(
            MeetingView {
                id: e.id,
                calendar_id: e.calendar_id,
                title: meeting_title(e.title),
                start_at_ms: e.start_at_ms,
                end_at_ms: e.end_at_ms,
                attendees: attendees_of(e.participants),
            },
        )
    }
}

fn participant_label(p: &CalendarParticipant) -> (r: Option<String>)
    ensures
        match r {
            Some(s) => participant_label_spec(p@) == Some(s@),
            None => participant_label_spec(p@) is None,
        },
{
    if p.is_current_user {
        return None;
    }
    match &p.name {
        Some(name) => {
            let t = trimmed(name.as_str());
            if !t.as_str().is_empty() {
                return Some(t);
            }
        },
        None => {},
    }
    match &p.email {
        Some(email) => {
            let t = trimmed(email.as_str());
            if !t.as_str().is_empty() {
                return Some(t);
            }
        },
        None => {},
    }
    None
}

fn attendee_names(participants: &Vec<CalendarParticipant>) -> (r: Vec<String>)
    ensures
        r.deep_view() == attendees_of(participants@.map_values(|p: CalendarParticipant| p@)),
{
    let ghost ps = participants@.map_values(|p: CalendarParticipant| p@);
    let mut r: Vec<String> = Vec::new();
    let mut i: usize = 0;
    proof {
        assert(ps.take(0) =~= Seq::<ParticipantView>::empty());
        assert(r.deep_view() =~= Seq::<Seq<char>>::empty());
    }
    while i < participants.len()
        invariant
            ps == participants@.map_values(|p: CalendarParticipant| p@),
            i <= participants@.len(),
            r.deep_view() == attendees_of(ps.take(i as int)),
        decreases participants@.len() - i,
    {
        proof {
            assert(ps.take(i + 1).drop_last() =~= ps.take(i as int));
            assert(ps.take(i + 1).last() == participants@[i as int]@);
        }
        match participant_label(&participants[i]) {
            Some(label) => {
                if !super::state::start::contains_string(&r, &label) {
                    let ghost before = r.deep_view();
                    r.push(label);
                    proof {
                        assert(r.deep_view() =~= before.push(r@.last()@));
                    }
                }
            },
            None => {},
        }
        i = i + 1;
    }
    proof {
        assert(ps.take(i as int) =~= ps);
    }
    r
}

impl Meeting {
    /// The meeting a calendar event stands for; events that are not meetings
    /// are refused.
    pub fn try_from(event: CalendarEvent) -> (r: Result<Meeting, ()>)
        ensures
            match meeting_of_event(event@) {
                Some(m) => r matches Ok(x) && x@ == m,
                None => r is Err,
            },
    {
        if event.all_day || event.canceled || event.free || event.current_user_declined {
            return Err(());
        }
        let attendees = attendee_names(&event.participants);
        let blank = trimmed(event.title.as_str()).as_str().is_empty();
        let title = if blank {
            owned("Calendar meeting")
        } else {
            event.title
        };
        Ok(
            Meeting {
                id: event.id,
                calendar_id: event.calendar_id,
                title,
                start_at_ms: event.start_at_ms,
                end_at_ms: event.end_at_ms,
                attendees,
            },
        )
    }
}

/// A start action is timely until ten minutes after the scheduled start.
pub open spec fn timely(m: MeetingView, now: u64) -> bool {
    now < sat_add(m.start_at_ms, LATE_START_GRACE_MS)
}

/// Whether a start action for `meeting` is still timely at `now_ms`.
pub fn start_action_is_timely(meeting: &Meeting, now_ms: u64) -> (r: bool)
    ensures
        r == timely(meeting@, now_ms),
{
    now_ms < meeting.start_at_ms.saturating_add(LATE_START_GRACE_MS)
}

/// The start prompt is due from `lead_minutes` before the start until the
/// late-start window closes.
pub open spec fn prompt_due(m: MeetingView, now: u64, lead_minutes: u16) -> bool {
    now >= sat_sub(m.start_at_ms, (lead_minutes * 60000) as u64) && timely(m, now)
}

/// Whether the start prompt for `meeting` is due at `now_ms`.
pub fn start_prompt_is_due(meeting: &Meeting, now_ms: u64, lead_minutes: u16) -> (r: bool)
    ensures
        r == prompt_due(meeting@, now_ms, lead_minutes),
{
    let lead_ms = (lead_minutes as u64) * 60 * 1000;
    now_ms >= meeting.start_at_ms.saturating_sub(lead_ms) && now_ms
        < meeting.start_at_ms.saturating_add(LATE_START_GRACE_MS)
}

/// Automatic recording applies to meetings with other attendees, when enabled.
pub open spec fn eligible(settings: SettingsView, m: MeetingView) -> bool {
    settings.meeting_auto_record_enabled && m.attendees.len() > 0
}

/// A meeting without other attendees, or any meeting while automatic
/// recording is off, is never recorded automatically, and its start prompt
/// is never automatic.
pub proof fn automatic_recording_needs_attendees_and_the_setting(
    v: super::state::SchedulerView,
    id: Seq<char>,
    settings: SettingsView,
    m: MeetingView,
    now: u64,
)
    requires
        m.attendees.len() == 0 || !settings.meeting_auto_record_enabled,
    ensures
        !eligible(settings, m),
        !automatic_start_spec(v, id, settings, m, now),
{
}

/// Whether `meeting` may be recorded automatically under `settings`.
pub fn auto_record_eligible(settings: &AppSettings, meeting: &Meeting) -> (r: bool)
    ensures
        r == eligible(settings@, meeting@),
{
    settings.meeting_auto_record_enabled && meeting.attendees.len() > 0
}

/// A new prompt is automatic only before the meeting starts; a refreshed
/// prompt keeps the automation it already had.
pub open spec fn automatic_start_spec(
    v: super::state::SchedulerView,
    id: Seq<char>,
    settings: SettingsView,
    m: MeetingView,
    now: u64,
) -> bool {
    eligible(settings, m) && (now < m.start_at_ms || (v.prompts.contains_key(id)
        && v.prompts[id].auto_start))
}

/// Whether the prompt `request_id` for `meeting` should start the recording
/// automatically.
pub fn automatic_start_for_prompt(
    scheduler: &MeetingSchedulerState,
    request_id: &str,
    settings: &AppSettings,
    meeting: &Meeting,
    now_ms: u64,
) -> (r: bool)
    requires
        scheduler.wf(),
    ensures
        r == automatic_start_spec(scheduler@, request_id@, settings@, meeting@, now_ms),
{
    auto_record_eligible(settings, meeting) && (now_ms < meeting.start_at_ms
        || scheduler.start_prompt_is_automatic(request_id))
}

/// How a start prompt describes when the meeting starts.
pub open spec fn timing_spec(m: MeetingView, now: u64, lead_minutes: u16) -> Seq<char> {
    if now >= m.start_at_ms {
        "now"@
    } else {
        "in "@ + decimal(lead_minutes as nat) + " minutes"@
    }
}

/// "now" once the meeting has started, else "in <lead> minutes".
pub fn start_timing(meeting: &Meeting, now_ms: u64, lead_minutes: u16) -> (r: String)
    ensures
        r@ == timing_spec(meeting@, now_ms, lead_minutes),
{
    if now_ms >= meeting.start_at_ms {
        owned("now")
    } else {
        let mut r = owned("in ");
        push_decimal(&mut r, lead_minutes as u64);
        r.append(" minutes");
        r
    }
}

/// Whether a meeting is still one the user could start recording: reminders
/// are on for its calendar, the start is timely, and the calendar still lists
/// it (read through `lookup`, which receives its calendar and a window around
/// its schedule).
pub open spec fn still_listed(m: MeetingView, events: Seq<EventView>) -> bool {
    exists|i: int| 0 <= i < events.len() && #[trigger] lists_meeting(events[i], m.id)
}

/// Whether event `e` is a meeting with id `id`.
pub open spec fn lists_meeting(e: EventView, id: Seq<char>) -> bool {
    match meeting_of_event(e) {
        Some(x) => x.id == id,
        None => false,
    }
}

/// Whether `meeting` may still be started under `settings` at `now`, before
/// the calendar is consulted.
pub open spec fn may_be_current(settings: SettingsView, m: MeetingView, now: Option<u64>) -> bool {
    &&& settings.meeting_reminders_enabled
    &&& settings.meeting_calendar_ids.contains(m.calendar_id)
    &&& now is Some
    &&& timely(m, now->0)
}

/// Whether the calendar still lists `meeting` as a meeting one could start
/// recording now. `now_ms` is `None` when the clock could not be read; the
/// calendar is read through `lookup` only when the other conditions hold.
pub fn meeting_is_current<F: FnOnce(String, u64, u64) -> Result<Vec<CalendarEvent>, String>>(
    settings: &AppSettings,
    meeting: &Meeting,
    now_ms: Option<u64>,
    lookup: F,
) -> (r: bool)
    requires
        forall|c: String, a: u64, b: u64| call_requires(lookup, (c, a, b)),
    ensures
        !may_be_current(settings@, meeting@, now_ms) ==> !r,
        may_be_current(settings@, meeting@, now_ms) ==> exists|
            c: String,
            w: Result<Vec<CalendarEvent>, String>,
        |
            {
                &&& c@ == meeting@.calendar_id
                &&& call_ensures(
                    lookup,
                    (
                        c,
                        sat_sub(meeting@.start_at_ms, 1),
                        sat_add(meeting@.end_at_ms, 1),
                    ),
                    w,
                )
                &&& r == match w {
                    Ok(events) => still_listed(meeting@, crate::platform::calendar::event_views(events@)),
                    Err(_) => false,
                }
            },
{
    if !settings.meeting_reminders_enabled || !super::state::start::contains_string(
        &settings.meeting_calendar_ids,
        &meeting.calendar_id,
    ) {
        return false;
    }
    let now = match now_ms {
        Some(now) => now,
        None => {
            return false;
        },
    };
    if !start_action_is_timely(meeting, now) {
        return false;
    }
    let calendar_id = copy_string(&meeting.calendar_id);
    let ghost cid = calendar_id;
    let w = lookup(
        calendar_id,
        meeting.start_at_ms.saturating_sub(1),
        meeting.end_at_ms.saturating_add(1),
    );
    let ghost w0 = w;
    match w {
        Ok(events) => {
            let ghost all = crate::platform::calendar::event_views(events@);
            let mut rest = events;
            let mut found = false;
            while rest.len() > 0
                invariant
                    rest@.len() <= all.len(),
                    forall|i: int| 0 <= i < rest@.len() ==> #[trigger] rest@[i]@ == all[i],
                    found == exists|i: int|
                        rest@.len() <= i < all.len() && #[trigger] lists_meeting(all[i], meeting@.id),
                decreases rest@.len(),
            {
                let ghost k = rest@.len() - 1;
                let event = rest.pop().unwrap();
                proof {
                    assert(event@ == all[k]);
                }
                let listed = match Meeting::try_from(event) {
                    Ok(current) => current.id == meeting.id,
                    Err(()) => false,
                };
                proof {
                    assert(listed == lists_meeting(all[k], meeting@.id));
                }
                found = found || listed;
            }
            proof {
                assert(found == still_listed(meeting@, all));
                assert(w0 == Ok::<Vec<CalendarEvent>, String>(events));
                assert(call_ensures(lookup, (cid, sat_sub(meeting@.start_at_ms, 1), sat_add(meeting@.end_at_ms, 1)), w0));
            }
            found
        },
        Err(_) => {
            proof {
                assert(call_ensures(lookup, (cid, sat_sub(meeting@.start_at_ms, 1), sat_add(meeting@.end_at_ms, 1)), w0));
            }
            false
        },
    }
}

/// Reconciles the scheduler with the recording that is running now, if any:
/// an active meeting that belongs to no running recording, or to another one,
/// is forgotten. Returns the end prompt to withdraw.
pub fn reconcile_active_recording(
    scheduler: &mut MeetingSchedulerState,
    active_session_id: Option<u64>,
) -> (r: Option<String>)
    requires
        old(scheduler).wf(),
    ensures
        final(scheduler).wf(),
        (final(scheduler)@, r.deep_view()) == match active_session_id {
            Some(session) => clear_if_session_differs_spec(old(scheduler)@, session),
            None => clear_active_spec(old(scheduler)@),
        },
{
    match active_session_id {
        Some(session_id) => scheduler.clear_if_session_differs(session_id),
        None => scheduler.clear_active(),
    }
}

/// The scheduler `after` and the plan are what a calendar refresh listing
/// `events` makes of `before`.
pub open spec fn refreshed(
    before: SchedulerView,
    settings: SettingsView,
    events: Seq<EventView>,
    now: u64,
    after: SchedulerView,
    removed: Seq<Seq<char>>,
    notices: Seq<prompts::NoticeView>,
) -> bool {
    &&& lists_keys_once(removed, prompts_outside(before.prompts, timely_ids(meetings_of(events), now)))
    &&& (after, notices) == prompt_pass(
        reconcile_start_prompts_spec(before, timely_ids(meetings_of(events), now)),
        settings,
        meetings_of(events),
        now,
    )
}

/// What a calendar refresh of `before` does: under an authorization that does
/// not allow reading, it fails with the reason and changes nothing; with no
/// calendar selected it applies an empty listing; otherwise it reads the
/// selected calendars around `now` through `fetch` and applies the listing
/// (sorted by start), or fails with the read error, changing nothing.
pub open spec fn refresh_outcome<F: FnOnce(Vec<String>, u64, u64) -> Result<Vec<CalendarEvent>, String>>(
    before: SchedulerView,
    settings: SettingsView,
    now: u64,
    calendar_authorization: Seq<char>,
    fetch: F,
    after: SchedulerView,
    r: Result<StartPromptPlan, String>,
) -> bool {
    &&& r is Err ==> after == before
    &&& authorization_error(calendar_authorization) matches Some(m) ==> (r matches Err(e) && e@ == m)
    &&& authorization_error(calendar_authorization) is None && settings.meeting_calendar_ids.len() == 0
        ==> (r matches Ok(plan) && refreshed(
        before,
        settings,
        Seq::empty(),
        now,
        after,
        plan.removed.deep_view(),
        notice_views(plan.notices@),
    ))
    &&& authorization_error(calendar_authorization) is None && settings.meeting_calendar_ids.len() > 0
        ==> exists|ids: Vec<String>, w: Result<Vec<CalendarEvent>, String>|
        {
            &&& ids.deep_view() == settings.meeting_calendar_ids
            &&& call_ensures(fetch, (ids, sat_sub(now, LOOK_BACK_MS), sat_add(now, LOOK_AHEAD_MS)), w)
            &&& match w {
                Err(e) => r == Err::<StartPromptPlan, String>(e),
                Ok(evs) => r matches Ok(plan) && refreshed(
                    before,
                    settings,
                    events_by_start(event_views(evs@)),
                    now,
                    after,
                    plan.removed.deep_view(),
                    notice_views(plan.notices@),
                ),
            }
        }
}

/// Reads the selected calendars around `now` through `fetch` (under the
/// calendar authorization labelled `calendar_authorization`) and applies the
/// result to the start prompts. A failed read changes nothing.
pub fn refresh_start_prompts<F: FnOnce(Vec<String>, u64, u64) -> Result<Vec<CalendarEvent>, String>>(
    scheduler: &mut MeetingSchedulerState,
    settings: &AppSettings,
    now: u64,
    calendar_authorization: &str,
    fetch: F,
) -> (r: Result<StartPromptPlan, String>)
    requires
        old(scheduler).wf(),
        forall|ids: Vec<String>, a: u64, b: u64| call_requires(fetch, (ids, a, b)),
    ensures
        final(scheduler).wf(),
        refresh_outcome(
            old(scheduler)@,
            settings@,
            now,
            calendar_authorization@,
            fetch,
            final(scheduler)@,
            r,
        ),
{
    let (from_ms, to_ms) = refresh_window(now);
    let events = upcoming_events(
        calendar_authorization,
        &settings.meeting_calendar_ids,
        from_ms,
        to_ms,
        fetch,
    )?;
    proof {
        if settings@.meeting_calendar_ids.len() == 0 {
            assert(event_views(events@) =~= Seq::<EventView>::empty());
        }
    }
    Ok(reconcile_start_prompts(scheduler, settings, events, now))
}

} // verus!
