//! Properties of the meeting scheduler that span several operations, stated
//! over the same views and transitions the operations' contracts use.

use vstd::prelude::*;

use super::model::MeetingView;
use super::scheduler::{
    attendees_of, meeting_of_event, notification_id_spec, participant_label_spec, prompt_due,
    read_status_update, timely, TransitionView,
};
use crate::platform::calendar::{EventView, ParticipantView};
use crate::text::is_blank;
use super::state::start::{
    auto_start_candidate, clear_start_prompts_spec, restore_start_prompt_spec, take_start_prompt_spec,
    upsert_start_prompt_spec, AUTO_START_LATE_GRACE_MS,
};
use super::state::{
    claim_due_auto_stop_spec, defer_end_prompt_spec, due_end_prompt_spec, next_revision,
    retry_end_prompt_spec, sat_add, update_active_end_reminders_spec, SchedulerView,
    AUTO_STOP_WARNING_MS,
};
use super::normalized;
use crate::settings::model::SettingsView;
use crate::text::lemma_hex_digits_len;

verus! {

/// A start prompt is consumed at most once: taking it again finds nothing.
pub proof fn start_prompt_is_consumed_once(v: SchedulerView, request_id: Seq<char>)
    ensures
        take_start_prompt_spec(take_start_prompt_spec(v, request_id).0, request_id).1 is None,
{
}

/// A meeting is prompted once: after its prompt is accepted (and even after
/// it is consumed), a new request id for the same meeting is refused.
pub proof fn meeting_is_prompted_once(
    v: SchedulerView,
    request_id: Seq<char>,
    meeting: MeetingView,
    auto_start: bool,
    other_request_id: Seq<char>,
    same_meeting: MeetingView,
    other_auto_start: bool,
    consumed: bool,
)
    requires
        !v.prompts.contains_key(request_id),
        upsert_start_prompt_spec(v, request_id, meeting, auto_start).1,
        same_meeting.id == meeting.id,
        other_request_id != request_id,
        !v.prompts.contains_key(other_request_id),
    ensures
        ({
            let after = upsert_start_prompt_spec(v, request_id, meeting, auto_start).0;
            let state = if consumed {
                take_start_prompt_spec(after, request_id).0
            } else {
                after
            };
            upsert_start_prompt_spec(state, other_request_id, same_meeting, other_auto_start) == (
            state, false)
        }),
{
}

/// A start that failed can put its prompt back, and the prompt is then the
/// same action as before it was consumed.
pub proof fn failed_start_restores_the_same_action(v: SchedulerView, request_id: Seq<char>)
    requires
        v.prompts.contains_key(request_id),
        v.prompts[request_id].auto_start_revision == v.revision,
        v.prompts[request_id].request_id == request_id,
    ensures
        ({
            let (taken, prompt) = take_start_prompt_spec(v, request_id);
            let restored = restore_start_prompt_spec(taken, prompt->0);
            &&& restored == v
            &&& take_start_prompt_spec(restored, request_id).1 == prompt
        }),
{
    let (taken, prompt) = take_start_prompt_spec(v, request_id);
    let restored = restore_start_prompt_spec(taken, prompt->0);
    assert(restored.prompts =~= v.prompts);
}

/// A change of automation settings cancels consent given before it: a prompt
/// consumed before the change is not put back after it, and its revision no
/// longer matches the scheduler's.
pub proof fn settings_change_cancels_consumed_prompts(v: SchedulerView, request_id: Seq<char>)
    requires
        v.prompts.contains_key(request_id),
        v.prompts[request_id].auto_start_revision == v.revision,
    ensures
        ({
            let (taken, prompt) = take_start_prompt_spec(v, request_id);
            let changed = clear_start_prompts_spec(taken);
            &&& prompt->0.auto_start_revision != changed.revision
            &&& restore_start_prompt_spec(changed, prompt->0) == changed
            &&& !changed.prompts.contains_key(request_id)
        }),
{
}

/// The end prompt is due once per due time: asking again, at any time,
/// finds nothing until it is re-armed.
pub proof fn end_prompt_is_due_once(v: SchedulerView, now: u64, later: u64, session: u64)
    requires
        due_end_prompt_spec(v, now, session).1 is Some,
    ensures
        due_end_prompt_spec(due_end_prompt_spec(v, now, session).0, later, session).1 is None,
{
}

/// An end prompt whose notification could not be delivered is due again.
pub proof fn undelivered_end_prompt_is_due_again(v: SchedulerView, now: u64, session: u64)
    requires
        due_end_prompt_spec(v, now, session).1 is Some,
    ensures
        ({
            let (shown, due) = due_end_prompt_spec(v, now, session);
            let retried = retry_end_prompt_spec(shown, due->0.request_id);
            due_end_prompt_spec(retried, now, session).1 matches Some(again) && again.request_id
                == due->0.request_id && again.meeting == due->0.meeting
        }),
{
}

/// "Keep recording" re-arms the end prompt for the chosen time and cancels an
/// automatic stop that was not yet claimed.
pub proof fn keeping_the_recording_rearms_and_cancels_the_stop(
    v: SchedulerView,
    now: u64,
    session: u64,
    next: u64,
    later: u64,
)
    requires
        due_end_prompt_spec(v, now, session).1 is Some,
        !v.active->0.auto_stop_claimed,
    ensures
        ({
            let (shown, due) = due_end_prompt_spec(v, now, session);
            let kept = defer_end_prompt_spec(shown, due->0.request_id, next);
            &&& claim_due_auto_stop_spec(kept, later, session).1 is None
            &&& (later >= next <==> due_end_prompt_spec(kept, later, session).1 is Some)
        }),
{
}

/// An automatic stop is claimed once.
pub proof fn automatic_stop_is_claimed_once(v: SchedulerView, now: u64, later: u64, session: u64)
    requires
        claim_due_auto_stop_spec(v, now, session).1 is Some,
    ensures
        claim_due_auto_stop_spec(claim_due_auto_stop_spec(v, now, session).0, later, session).1 is None,
{
}

/// A warning that a recording will stop comes at least one minute before the
/// stop: nothing can be claimed earlier.
pub proof fn warning_precedes_the_automatic_stop(v: SchedulerView, now: u64, session: u64, later: u64)
    requires
        due_end_prompt_spec(v, now, session).1 matches Some(d) && d.auto_stop,
        later < sat_add(now, AUTO_STOP_WARNING_MS),
    ensures
        claim_due_auto_stop_spec(due_end_prompt_spec(v, now, session).0, later, session).1 is None,
{
}

/// Only armed automatic prompts start by themselves, at or after their
/// meeting's start and less than a minute after it.
pub proof fn automatic_start_only_when_armed_and_on_time(v: SchedulerView, request_id: Seq<char>, now: u64)
    requires
        auto_start_candidate(v, request_id, now),
    ensures
        v.prompts[request_id].auto_start,
        v.prompts[request_id].auto_start_after_ms matches Some(t) && t <= now,
        v.prompts[request_id].meeting.start_at_ms <= now,
        now < v.prompts[request_id].meeting.start_at_ms + AUTO_START_LATE_GRACE_MS,
        now < v.prompts[request_id].meeting.end_at_ms,
{
}

/// A meeting starts automatically at most once: once marked as attempted,
/// none of its prompts is a candidate again.
pub proof fn automatic_start_happens_once(v: SchedulerView, request_id: Seq<char>, other: Seq<char>, later: u64)
    requires
        v.prompts.contains_key(request_id),
        v.prompts.contains_key(other),
        v.prompts[other].meeting.id == v.prompts[request_id].meeting.id,
    ensures
        !auto_start_candidate(
            SchedulerView {
                attempted: v.attempted.insert(v.prompts[request_id].meeting.id),
                ..v
            },
            other,
            later,
        ),
{
}

/// Disabling end reminders forgets a manually started meeting, but never
/// cancels a scheduled automatic stop.
pub proof fn disabling_end_reminders_keeps_automatic_stops(v: SchedulerView)
    requires
        v.active is Some,
    ensures
        v.active->0.auto_stop_at_ms is Some ==> update_active_end_reminders_spec(v, false) == (v, None::<Seq<char>>),
        v.active->0.auto_stop_at_ms is None && !v.active->0.auto_stop_claimed ==> update_active_end_reminders_spec(v, false).0.active is None,
{
}

/// A calendar failure is reported once while it lasts, and a recovery once.
pub proof fn calendar_failures_are_reported_once(last: Option<Seq<char>>, error: Seq<char>)
    ensures
        read_status_update(read_status_update(last, Err(error)).0, Err(error)).1 is None,
        read_status_update(read_status_update(last, Ok(())).0, Ok(())).1 is None,
        read_status_update(Some(error), Ok(())).1 matches Some(TransitionView::Recovered),
{
}

/// Notification ids are kind-specific: for one meeting, different kinds of
/// prompt get different ids.
pub proof fn notification_ids_are_kind_specific(kind: Seq<char>, other_kind: Seq<char>, meeting_id: Seq<char>)
    requires
        kind != other_kind,
    ensures
        notification_id_spec(kind, meeting_id) != notification_id_spec(other_kind, meeting_id),
{
    let h = crate::meetings::scheduler::default_hash(meeting_id) as nat;
    lemma_hex_digits_len(h, 16);
    let a = notification_id_spec(kind, meeting_id);
    let b = notification_id_spec(other_kind, meeting_id);
    if a == b {
        let p = "just-notes-"@.len() as int;
        assert(a.len() == p + kind.len() + "-"@.len() + 16);
        assert(b.len() == p + other_kind.len() + "-"@.len() + 16);
        assert(a.subrange(p, p + kind.len()) =~= kind);
        assert(b.subrange(p, p + other_kind.len()) =~= other_kind);
    }
}

/// Automatic recording is never on while meeting reminders are off, and
/// normalising twice changes nothing more.
pub proof fn normalized_settings_never_record_without_reminders(s: SettingsView)
    ensures
        normalized(s).meeting_auto_record_enabled ==> normalized(s).meeting_reminders_enabled,
        normalized(normalized(s)) == normalized(s),
        s.meeting_reminders_enabled ==> normalized(s) == s,
{
}

/// The start prompt is due from `lead_minutes` before the meeting starts
/// until ten minutes after it started; a start action stays timely for those
/// same ten minutes (stated where no clock value saturates).
pub proof fn start_prompt_is_due_from_the_lead_time_to_the_late_start_window(
    m: MeetingView,
    now: u64,
    lead_minutes: u16,
)
    requires
        m.start_at_ms >= lead_minutes * 60000,
        m.start_at_ms + 600000 <= u64::MAX,
    ensures
        prompt_due(m, now, lead_minutes) <==> m.start_at_ms - lead_minutes * 60000 <= now
            < m.start_at_ms + 600000,
        timely(m, now) <==> now < m.start_at_ms + 600000,
{
}

/// How an invitee is named: the current user never is; otherwise by the
/// trimmed name, else by the trimmed address, and a blank identity not at all.
pub proof fn invitees_are_named_by_name_then_address(p: ParticipantView)
    ensures
        p.is_current_user ==> participant_label_spec(p) is None,
        !p.is_current_user && p.name is Some && !is_blank(p.name->0) ==> participant_label_spec(p)
            == Some(crate::text::trim(p.name->0)),
        !p.is_current_user && (p.name is None || is_blank(p.name->0)) && p.email is Some
            && !is_blank(p.email->0) ==> participant_label_spec(p) == Some(
            crate::text::trim(p.email->0),
        ),
        (p.name is None || is_blank(p.name->0)) && (p.email is None || is_blank(p.email->0))
            ==> participant_label_spec(p) is None,
{
}

/// A meeting's attendees are its invitees' names, each once, in invite
/// order: every name comes from an invitee, every named invitee is listed,
/// and a name listed before another was invited before every invitation of
/// the other.
pub proof fn attendees_are_listed_once_in_invite_order(ps: Seq<ParticipantView>)
    ensures
        forall|i: int, j: int|
            0 <= i < j < attendees_of(ps).len() ==> #[trigger] attendees_of(ps)[i]
                != #[trigger] attendees_of(ps)[j],
        forall|i: int|
            0 <= i < attendees_of(ps).len() ==> exists|k: int|
                0 <= k < ps.len() && #[trigger] participant_label_spec(ps[k]) == Some(
                    #[trigger] attendees_of(ps)[i],
                ),
        forall|k: int|
            0 <= k < ps.len() && (#[trigger] participant_label_spec(ps[k])) is Some
                ==> attendees_of(ps).contains(participant_label_spec(ps[k])->0),
        forall|i: int, j: int, k2: int|
            0 <= i < j < attendees_of(ps).len() && 0 <= k2 < ps.len() && #[trigger] participant_label_spec(
                ps[k2],
            ) == Some(#[trigger] attendees_of(ps)[j]) ==> exists|k1: int|
                0 <= k1 < k2 && participant_label_spec(ps[k1]) == Some(#[trigger] attendees_of(ps)[i]),
    decreases ps.len(),
{
    if ps.len() > 0 {
        let pre = ps.drop_last();
        let n = ps.len() - 1;
        attendees_are_listed_once_in_invite_order(pre);
        let a = attendees_of(pre);
        let r = attendees_of(ps);
        assert forall|k: int| 0 <= k < n implies pre[k] == ps[k] by {}
        assert(r == a || (participant_label_spec(ps[n]) is Some && !a.contains(
            participant_label_spec(ps[n])->0,
        ) && r == a.push(participant_label_spec(ps[n])->0)));
        assert forall|i: int| 0 <= i < a.len() implies r[i] == a[i] by {}
        assert forall|i: int, j: int| 0 <= i < j < r.len() implies #[trigger] r[i] != #[trigger] r[j] by {
            if j >= a.len() {
                assert(!a.contains(r[j]));
                assert(a[i] == r[i]);
            }
        }
        assert forall|i: int| 0 <= i < r.len() implies exists|k: int|
            0 <= k < ps.len() && #[trigger] participant_label_spec(ps[k]) == Some(#[trigger] r[i]) by {
            if i < a.len() {
                let k = choose|k: int|
                    0 <= k < pre.len() && #[trigger] participant_label_spec(pre[k]) == Some(a[i]);
                assert(participant_label_spec(ps[k]) == Some(r[i]));
            } else {
                assert(participant_label_spec(ps[n]) == Some(r[i]));
            }
        }
        assert forall|k: int| 0 <= k < ps.len() && (#[trigger] participant_label_spec(ps[k])) is Some
            implies r.contains(participant_label_spec(ps[k])->0) by {
            let x = participant_label_spec(ps[k])->0;
            if k < n {
                assert(participant_label_spec(pre[k]) is Some);
                assert(a.contains(x));
                let t = choose|t: int| 0 <= t < a.len() && a[t] == x;
                assert(r[t] == x);
            } else if a.contains(x) {
                let t = choose|t: int| 0 <= t < a.len() && a[t] == x;
                assert(r[t] == x);
            } else {
                assert(r[a.len() as int] == x);
            }
        }
        assert forall|i: int, j: int, k2: int|
            0 <= i < j < r.len() && 0 <= k2 < ps.len() && #[trigger] participant_label_spec(ps[k2])
                == Some(#[trigger] r[j]) implies exists|k1: int|
            0 <= k1 < k2 && participant_label_spec(ps[k1]) == Some(#[trigger] r[i]) by {
            let wk = choose|k: int|
                0 <= k < pre.len() && #[trigger] participant_label_spec(pre[k]) == Some(a[i]);
            if j < a.len() {
                if k2 < n {
                    assert(participant_label_spec(pre[k2]) == Some(a[j]));
                    let k1 = choose|k1: int|
                        0 <= k1 < k2 && participant_label_spec(pre[k1]) == Some(#[trigger] a[i]);
                    assert(participant_label_spec(ps[k1]) == Some(r[i]));
                } else {
                    assert(participant_label_spec(ps[wk]) == Some(r[i]));
                }
            } else {
                if k2 < n {
                    assert(participant_label_spec(pre[k2]) is Some);
                    assert(a.contains(r[j]));
                    assert(false);
                }
                assert(participant_label_spec(ps[wk]) == Some(r[i]));
            }
        }
    }
}

/// Only meetings become meetings: an all-day, canceled, free or declined
/// event is refused; any other keeps its id, calendar, times and invitees,
/// and its title unless the title is blank, which reads "Calendar meeting".
pub proof fn events_become_meetings_unless_excluded(e: EventView)
    ensures
        (e.all_day || e.canceled || e.free || e.current_user_declined) <==> meeting_of_event(e) is None,
        meeting_of_event(e) matches Some(m) ==> {
            &&& m.id == e.id
            &&& m.calendar_id == e.calendar_id
            &&& m.start_at_ms == e.start_at_ms
            &&& m.end_at_ms == e.end_at_ms
            &&& m.attendees == attendees_of(e.participants)
            &&& !is_blank(e.title) ==> m.title == e.title
            &&& is_blank(e.title) ==> m.title == "Calendar meeting"@
        },
{
}

/// The pending start prompt shown first is one whose meeting starts no later
/// than any other pending prompt's meeting.
pub proof fn the_current_prompt_starts_earliest(a: super::model::PromptView, b: super::model::PromptView)
    requires
        super::state::start::prompt_precedes(a, b),
    ensures
        a.meeting.start_at_ms <= b.meeting.start_at_ms,
{
}

/// An automatic start confirmed at `confirmed_at_ms` waits for the meeting's
/// scheduled start and for fifteen seconds after the warning, and no longer
/// than the later of the two.
pub proof fn automatic_start_waits_for_the_start_and_the_skip_window(
    m: MeetingView,
    confirmed_at_ms: u64,
)
    requires
        confirmed_at_ms + 15000 <= u64::MAX,
    ensures
        super::scheduler::prompts::auto_start_after(m, confirmed_at_ms) >= m.start_at_ms,
        super::scheduler::prompts::auto_start_after(m, confirmed_at_ms) >= confirmed_at_ms + 15000,
        super::scheduler::prompts::auto_start_after(m, confirmed_at_ms) == m.start_at_ms
            || super::scheduler::prompts::auto_start_after(m, confirmed_at_ms) == confirmed_at_ms + 15000,
{
}

/// What a change of settings withdraws: turning reminders off forgets the
/// active meeting; a change of reminders, calendars, lead time or automatic
/// recording drops every start prompt and voids consent given before; an
/// unchanged configuration with reminders on leaves the scheduler as it was.
pub proof fn settings_changes_withdraw_what_they_governed(
    v: SchedulerView,
    previous: SettingsView,
    current: SettingsView,
)
    ensures
        !current.meeting_reminders_enabled ==> super::settings_updated_spec(v, previous, current).0.active is None,
        (previous.meeting_reminders_enabled != current.meeting_reminders_enabled
            || previous.meeting_calendar_ids != current.meeting_calendar_ids
            || previous.meeting_reminder_minutes != current.meeting_reminder_minutes
            || previous.meeting_auto_record_enabled != current.meeting_auto_record_enabled) ==> {
            &&& forall|k: Seq<char>| !super::settings_updated_spec(v, previous, current).0.prompts.contains_key(k)
            &&& super::settings_updated_spec(v, previous, current).0.revision != v.revision
        },
        previous == current && current.meeting_reminders_enabled ==> super::settings_updated_spec(
            v,
            previous,
            current,
        ) == (v, None::<Seq<char>>),
{
}

/// A meeting's start prompt is shown only when it is due; a shown prompt is
/// pending under its request id for that meeting, and it announces an
/// automatic start only for a meeting with other attendees while automatic
/// recording is on.
pub proof fn start_prompts_are_shown_only_when_due(
    v: SchedulerView,
    settings: SettingsView,
    m: MeetingView,
    now: u64,
)
    ensures
        !prompt_due(m, now, settings.meeting_reminder_minutes) ==> super::scheduler::prompts::prompt_step(
            v,
            settings,
            m,
            now,
        ) == (v, None::<super::scheduler::prompts::NoticeView>),
        super::scheduler::prompts::prompt_step(v, settings, m, now).1 matches Some(n) ==> {
            let after = super::scheduler::prompts::prompt_step(v, settings, m, now).0;
            &&& n.meeting == m
            &&& after.prompts.contains_key(n.request_id)
            &&& after.prompts[n.request_id].meeting == m
            &&& after.prompts[n.request_id].auto_start == n.auto_start
            &&& n.auto_start ==> m.attendees.len() > 0 && settings.meeting_auto_record_enabled
        },
{
}

/// An end action acts only on the active meeting of the recording it was
/// raised for: another session, another request id or no active meeting is
/// refused.
pub proof fn end_actions_target_only_their_recording(v: SchedulerView, id: Seq<char>, session: u64)
    ensures
        super::state::matches_active_end_prompt_spec(v, id, session) ==> (v.active matches Some(a)
            && a.end_request_id == id && a.recording_session_id == session),
        v.active is None ==> !super::state::matches_active_end_prompt_spec(v, id, session),
{
}

} // verus!
