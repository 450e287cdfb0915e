//! The scheduler's memory: pending start prompts and the meeting being recorded.
//!
//! Start prompts are keyed by notification request id; each meeting is prompted
//! at most once until the calendar stops listing it. An end prompt follows the
//! active meeting's recording session, and an automatic recording warns before
//! it stops.

use vstd::prelude::*;

use super::model::{DueEndPrompt, DueEndView, Meeting, MeetingPrompt, MeetingView, PromptView};
use crate::text::{copy_string, owned};

pub mod start;

verus! {

/// How long before an automatic stop its warning is shown.
pub const AUTO_STOP_WARNING_MS: u64 = 60000;

/// How long "keep recording" postpones the next end reminder.
pub const END_REMINDER_DELAY_MS: u64 = 600000;

/// `a + b`, capped at `u64::MAX` (`u64::saturating_add`).
pub open spec fn sat_add(a: u64, b: u64) -> u64 {
    if a + b > u64::MAX {
        u64::MAX
    } else {
        (a + b) as u64
    }
}

/// `a - b`, floored at zero (`u64::saturating_sub`).
pub open spec fn sat_sub(a: u64, b: u64) -> u64 {
    if a >= b {
        (a - b) as u64
    } else {
        0
    }
}

/// `r + 1`, wrapping to zero (`u64::wrapping_add(r, 1)`).
pub open spec fn next_revision(r: u64) -> u64 {
    if r == u64::MAX {
        0
    } else {
        (r + 1) as u64
    }
}

struct ActiveMeeting {
    meeting: Meeting,
    recording_session_id: u64,
    end_request_id: String,
    next_prompt_at_ms: u64,
    prompted: bool,
    auto_stop_at_ms: Option<u64>,
    auto_stop_claimed: bool,
}

/// The meeting whose recording is running, and the state of its end prompt.
pub struct ActiveView {
    pub meeting: MeetingView,
    pub recording_session_id: u64,
    pub end_request_id: Seq<char>,
    pub next_prompt_at_ms: u64,
    pub prompted: bool,
    pub auto_stop_at_ms: Option<u64>,
    pub auto_stop_claimed: bool,
}

impl View for ActiveMeeting {
    type V = ActiveView;

    closed spec fn view(&self) -> ActiveView {
        ActiveView {
            meeting: self.meeting@,
            recording_session_id: self.recording_session_id,
            end_request_id: self.end_request_id@,
            next_prompt_at_ms: self.next_prompt_at_ms,
            prompted: self.prompted,
            auto_stop_at_ms: self.auto_stop_at_ms,
            auto_stop_claimed: self.auto_stop_claimed,
        }
    }
}

/// The scheduler's state as mathematical values.
pub struct SchedulerView {
    /// Meetings that have been prompted (by meeting id).
    pub prompted: Set<Seq<char>>,
    /// Meetings whose automatic start has been attempted (by meeting id).
    pub attempted: Set<Seq<char>>,
    /// Bumped whenever automation settings change; stale consent is refused.
    pub revision: u64,
    /// Pending start prompts by request id.
    pub prompts: Map<Seq<char>, PromptView>,
    pub active: Option<ActiveView>,
}

/// The state of the meeting scheduler.
pub struct MeetingSchedulerState {
    prompted_meetings: Vec<String>,
    auto_start_attempted: Vec<String>,
    auto_start_revision: u64,
    start_prompts: Vec<MeetingPrompt>,
    active_meeting: Option<ActiveMeeting>,
}

pub open spec fn prompt_views(s: Seq<MeetingPrompt>) -> Seq<PromptView> {
    s.map_values(|p: MeetingPrompt| p@)
}

pub open spec fn unique_request_ids(s: Seq<PromptView>) -> bool {
    forall|i: int, j: int|
        0 <= i < s.len() && 0 <= j < s.len() && i != j ==> s[i].request_id != s[j].request_id
}

pub open spec fn has_request(s: Seq<PromptView>, k: Seq<char>) -> bool {
    exists|i: int| 0 <= i < s.len() && s[i].request_id == k
}

/// The prompts of `s` by request id.
pub open spec fn prompt_map(s: Seq<PromptView>) -> Map<Seq<char>, PromptView> {
    Map::new(
        |k: Seq<char>| has_request(s, k),
        |k: Seq<char>| s[choose|i: int| 0 <= i < s.len() && s[i].request_id == k],
    )
}

/// `ids` lists each key of `m` exactly once.
pub open spec fn lists_keys_once(ids: Seq<Seq<char>>, m: Map<Seq<char>, PromptView>) -> bool {
    &&& ids.no_duplicates()
    &&& forall|k: Seq<char>| ids.contains(k) <==> m.contains_key(k)
}

pub proof fn lemma_prompt_map_index(s: Seq<PromptView>, i: int)
    requires
        unique_request_ids(s),
        0 <= i < s.len(),
    ensures
        prompt_map(s).contains_key(s[i].request_id),
        prompt_map(s)[s[i].request_id] == s[i],
{
    let k = s[i].request_id;
    assert(has_request(s, k));
    let j = choose|j: int| 0 <= j < s.len() && s[j].request_id == k;
    assert(j == i);
}

pub proof fn lemma_prompt_map_ext(s: Seq<PromptView>, m: Map<Seq<char>, PromptView>)
    requires
        unique_request_ids(s),
        forall|k: Seq<char>| m.contains_key(k) <==> has_request(s, k),
        forall|i: int| 0 <= i < s.len() ==> m[#[trigger] s[i].request_id] == s[i],
    ensures
        prompt_map(s) == m,
{
    assert forall|k: Seq<char>| prompt_map(s).contains_key(k) implies prompt_map(s)[k] == m[k] by {
        let i = choose|i: int| 0 <= i < s.len() && s[i].request_id == k;
        lemma_prompt_map_index(s, i);
    }
    assert(prompt_map(s) =~= m);
}

pub proof fn lemma_prompt_map_push(s: Seq<PromptView>, p: PromptView)
    requires
        unique_request_ids(s),
        !has_request(s, p.request_id),
    ensures
        unique_request_ids(s.push(p)),
        prompt_map(s.push(p)) == prompt_map(s).insert(p.request_id, p),
{
    let t = s.push(p);
    let m = prompt_map(s).insert(p.request_id, p);
    assert(unique_request_ids(t)) by {
        assert forall|i: int, j: int|
            0 <= i < t.len() && 0 <= j < t.len() && i != j implies t[i].request_id
            != t[j].request_id by {
            if i == s.len() {
                assert(t[j] == s[j]);
            } else if j == s.len() {
                assert(t[i] == s[i]);
            }
        }
    }
    assert forall|k: Seq<char>| m.contains_key(k) <==> has_request(t, k) by {
        if has_request(t, k) {
            let i = choose|i: int| 0 <= i < t.len() && t[i].request_id == k;
            if i < s.len() {
                assert(s[i] == t[i]);
                assert(has_request(s, k));
            }
        }
        if has_request(s, k) {
            let i = choose|i: int| 0 <= i < s.len() && s[i].request_id == k;
            assert(t[i] == s[i]);
        }
        if k == p.request_id {
            assert(t[s.len() as int] == p);
        }
    }
    assert forall|i: int| 0 <= i < t.len() implies m[#[trigger] t[i].request_id] == t[i] by {
        if i < s.len() {
            assert(t[i] == s[i]);
            lemma_prompt_map_index(s, i);
        }
    }
    lemma_prompt_map_ext(t, m);
}

pub proof fn lemma_prompt_map_update(s: Seq<PromptView>, i: int, p: PromptView)
    requires
        unique_request_ids(s),
        0 <= i < s.len(),
        p.request_id == s[i].request_id,
    ensures
        unique_request_ids(s.update(i, p)),
        prompt_map(s.update(i, p)) == prompt_map(s).insert(p.request_id, p),
{
    let t = s.update(i, p);
    let m = prompt_map(s).insert(p.request_id, p);
    assert(forall|j: int| 0 <= j < s.len() ==> #[trigger] t[j].request_id == s[j].request_id);
    assert forall|k: Seq<char>| m.contains_key(k) <==> has_request(t, k) by {
        if has_request(t, k) {
            let j = choose|j: int| 0 <= j < t.len() && t[j].request_id == k;
            assert(s[j].request_id == k);
        }
        if has_request(s, k) {
            let j = choose|j: int| 0 <= j < s.len() && s[j].request_id == k;
            assert(t[j].request_id == k);
        }
        if k == p.request_id {
            assert(t[i].request_id == k);
        }
    }
    assert forall|j: int| 0 <= j < t.len() implies m[#[trigger] t[j].request_id] == t[j] by {
        if j != i {
            lemma_prompt_map_index(s, j);
        }
    }
    lemma_prompt_map_ext(t, m);
}

pub proof fn lemma_prompt_map_remove(s: Seq<PromptView>, i: int)
    requires
        unique_request_ids(s),
        0 <= i < s.len(),
    ensures
        unique_request_ids(s.remove(i)),
        prompt_map(s.remove(i)) == prompt_map(s).remove(s[i].request_id),
{
    let t = s.remove(i);
    let key = s[i].request_id;
    let m = prompt_map(s).remove(key);
    assert(forall|j: int| 0 <= j < t.len() ==> #[trigger] t[j] == if j < i {
        s[j]
    } else {
        s[j + 1]
    });
    assert forall|k: Seq<char>| m.contains_key(k) <==> has_request(t, k) by {
        if has_request(t, k) {
            let j = choose|j: int| 0 <= j < t.len() && t[j].request_id == k;
            if j < i {
                assert(has_request(s, k));
            } else {
                assert(s[j + 1].request_id == k);
                assert(has_request(s, k));
            }
        }
        if has_request(s, k) && k != key {
            let j = choose|j: int| 0 <= j < s.len() && s[j].request_id == k;
            if j < i {
                assert(t[j] == s[j]);
            } else {
                assert(j != i);
                assert(t[j - 1] == s[j]);
            }
        }
    }
    assert forall|j: int| 0 <= j < t.len() implies m[#[trigger] t[j].request_id] == t[j] by {
        if j < i {
            lemma_prompt_map_index(s, j);
        } else {
            lemma_prompt_map_index(s, j + 1);
        }
    }
    lemma_prompt_map_ext(t, m);
}

impl View for MeetingSchedulerState {
    type V = SchedulerView;

    closed spec fn view(&self) -> SchedulerView {
        SchedulerView {
            prompted: self.prompted_meetings.deep_view().to_set(),
            attempted: self.auto_start_attempted.deep_view().to_set(),
            revision: self.auto_start_revision,
            prompts: prompt_map(prompt_views(self.start_prompts@)),
            active: match self.active_meeting {
                Some(a) => Some(a@),
                None => None,
            },
        }
    }
}

impl MeetingSchedulerState {
    /// The internal consistency the scheduler keeps: one prompt per request id.
    pub closed spec fn wf(&self) -> bool {
        unique_request_ids(prompt_views(self.start_prompts@))
    }
}

/// The empty scheduler at automation revision `revision`.
pub open spec fn empty_scheduler(revision: u64) -> SchedulerView {
    SchedulerView {
        prompted: Set::empty(),
        attempted: Set::empty(),
        revision,
        prompts: Map::empty(),
        active: None,
    }
}

impl Default for MeetingSchedulerState {
    fn default() -> (r: Self)
        ensures
            r.wf(),
            r@ == empty_scheduler(0),
    {
        let r = MeetingSchedulerState {
            prompted_meetings: Vec::new(),
            auto_start_attempted: Vec::new(),
            auto_start_revision: 0,
            start_prompts: Vec::new(),
            active_meeting: None,
        };
        proof {
            assert(r@.prompted =~= Set::<Seq<char>>::empty());
            assert(r@.attempted =~= Set::<Seq<char>>::empty());
            assert(r@.prompts =~= Map::<Seq<char>, PromptView>::empty());
        }
        r
    }
}

// ----- transitions of the active meeting -------------------------------------

pub open spec fn end_request_of(active: Option<ActiveView>) -> Option<Seq<char>> {
    match active {
        Some(a) => Some(a.end_request_id),
        None => None,
    }
}

pub open spec fn without_active(v: SchedulerView) -> SchedulerView {
    SchedulerView { active: None, ..v }
}

pub open spec fn with_active(v: SchedulerView, a: ActiveView) -> SchedulerView {
    SchedulerView { active: Some(a), ..v }
}

/// Forgets the active meeting; yields its end prompt's request id.
pub open spec fn clear_active_spec(v: SchedulerView) -> (SchedulerView, Option<Seq<char>>) {
    (without_active(v), end_request_of(v.active))
}

/// Forgets the active meeting when it belongs to another recording session.
pub open spec fn clear_if_session_differs_spec(v: SchedulerView, session: u64) -> (
    SchedulerView,
    Option<Seq<char>>,
) {
    match v.active {
        Some(a) => if a.recording_session_id != session {
            clear_active_spec(v)
        } else {
            (v, None)
        },
        None => (v, None),
    }
}

/// Disabling end reminders forgets a manually started meeting; a meeting
/// with an automatic stop keeps its schedule.
pub open spec fn update_active_end_reminders_spec(v: SchedulerView, enabled: bool) -> (
    SchedulerView,
    Option<Seq<char>>,
) {
    match v.active {
        Some(a) => if a.auto_stop_claimed || a.auto_stop_at_ms is Some || enabled {
            (v, None)
        } else {
            clear_active_spec(v)
        },
        None => (v, None),
    }
}

/// The active meeting as a recording starts: an automatic recording warns one
/// minute before the scheduled end and stops at it; a manual one is reminded at
/// the end.
pub open spec fn new_active(
    meeting: MeetingView,
    session: u64,
    end_request_id: Seq<char>,
    auto_stop: bool,
) -> ActiveView {
    ActiveView {
        meeting,
        recording_session_id: session,
        end_request_id,
        next_prompt_at_ms: if auto_stop {
            sat_sub(meeting.end_at_ms, AUTO_STOP_WARNING_MS)
        } else {
            meeting.end_at_ms
        },
        prompted: false,
        auto_stop_at_ms: if auto_stop {
            Some(meeting.end_at_ms)
        } else {
            None
        },
        auto_stop_claimed: false,
    }
}

/// The end prompt is due once per due time for the current session; showing a
/// warning pushes an automatic stop to at least one minute later.
pub open spec fn due_end_prompt_spec(v: SchedulerView, now: u64, session: u64) -> (
    SchedulerView,
    Option<DueEndView>,
) {
    match v.active {
        Some(a) => if a.recording_session_id != session || a.prompted || now
            < a.next_prompt_at_ms {
            (v, None)
        } else {
            let stop = match a.auto_stop_at_ms {
                Some(t) => Some(
                    if t >= sat_add(now, AUTO_STOP_WARNING_MS) {
                        t
                    } else {
                        sat_add(now, AUTO_STOP_WARNING_MS)
                    },
                ),
                None => None,
            };
            (
                with_active(v, ActiveView { prompted: true, auto_stop_at_ms: stop, ..a }),
                Some(
                    DueEndView {
                        request_id: a.end_request_id,
                        meeting: a.meeting,
                        auto_stop: stop is Some,
                    },
                ),
            )
        },
        None => (v, None),
    }
}

/// "Keep recording": re-arms the reminder for `next` and cancels an
/// automatic stop that has not been claimed.
pub open spec fn defer_end_prompt_spec(v: SchedulerView, id: Seq<char>, next: u64) -> SchedulerView {
    match v.active {
        Some(a) => if a.end_request_id == id && !a.auto_stop_claimed {
            with_active(
                v,
                ActiveView { next_prompt_at_ms: next, prompted: false, auto_stop_at_ms: None, ..a },
            )
        } else {
            v
        },
        None => v,
    }
}

/// Claims a due automatic stop once for the current session.
pub open spec fn claim_due_auto_stop_spec(v: SchedulerView, now: u64, session: u64) -> (
    SchedulerView,
    Option<Seq<char>>,
) {
    match v.active {
        Some(a) => if a.recording_session_id != session || a.auto_stop_claimed || match a.auto_stop_at_ms {
            Some(t) => now < t,
            None => true,
        } {
            (v, None)
        } else {
            (with_active(v, ActiveView { auto_stop_claimed: true, ..a }), Some(a.end_request_id))
        },
        None => (v, None),
    }
}

/// Releases a claimed automatic stop so it can be claimed again.
pub open spec fn retry_auto_stop_spec(v: SchedulerView, id: Seq<char>) -> SchedulerView {
    match v.active {
        Some(a) => if a.end_request_id == id {
            with_active(v, ActiveView { auto_stop_claimed: false, ..a })
        } else {
            v
        },
        None => v,
    }
}

/// Re-arms an end prompt whose notification could not be delivered.
pub open spec fn retry_end_prompt_spec(v: SchedulerView, id: Seq<char>) -> SchedulerView {
    match v.active {
        Some(a) => if a.end_request_id == id {
            with_active(v, ActiveView { prompted: false, ..a })
        } else {
            v
        },
        None => v,
    }
}

/// Whether an end action targets the active meeting of the given session.
pub open spec fn matches_active_end_prompt_spec(v: SchedulerView, id: Seq<char>, session: u64) -> bool {
    match v.active {
        Some(a) => a.end_request_id == id && a.recording_session_id == session,
        None => false,
    }
}

impl MeetingSchedulerState {
    /// Forgets the active meeting and returns its end prompt's request id.
    pub fn clear_active(&mut self) -> (r: Option<String>)
        requires
            old(self).wf(),
        ensures
            final(self).wf(),
            (final(self)@, r.deep_view()) == clear_active_spec(old(self)@),
    {
        match self.active_meeting.take() {
            Some(active) => Some(active.end_request_id),
            None => None,
        }
    }

    /// Forgets the active meeting when it belongs to another recording session.
    pub fn clear_if_session_differs(&mut self, active_session_id: u64) -> (r: Option<String>)
        requires
            old(self).wf(),
        ensures
            final(self).wf(),
            (final(self)@, r.deep_view()) == clear_if_session_differs_spec(
                old(self)@,
                active_session_id,
            ),
    {
        let differs = match &self.active_meeting {
            Some(active) => active.recording_session_id != active_session_id,
            None => false,
        };
        if differs {
            self.clear_active()
        } else {
            None
        }
    }

    /// Applies a change of the end-reminder setting to the active meeting.
    pub fn update_active_end_reminders(&mut self, end_reminders_enabled: bool) -> (r: Option<
        String,
    >)
        requires
            old(self).wf(),
        ensures
            final(self).wf(),
            (final(self)@, r.deep_view()) == update_active_end_reminders_spec(
                old(self)@,
                end_reminders_enabled,
            ),
    {
        let keep = match &self.active_meeting {
            Some(active) => active.auto_stop_claimed || active.auto_stop_at_ms.is_some()
                || end_reminders_enabled,
            None => true,
        };
        if keep {
            None
        } else {
            self.clear_active()
        }
    }

    /// Records the meeting whose recording just started.
    pub fn set_active(
        &mut self,
        meeting: Meeting,
        recording_session_id: u64,
        end_request_id: String,
        auto_stop: bool,
    )
        requires
            old(self).wf(),
        ensures
            final(self).wf(),
            final(self)@ == with_active(
                old(self)@,
                new_active(meeting@, recording_session_id, end_request_id@, auto_stop),
            ),
    {
        let next_prompt_at_ms = if auto_stop {
            meeting.end_at_ms.saturating_sub(AUTO_STOP_WARNING_MS)
        } else {
            meeting.end_at_ms
        };
        let auto_stop_at_ms = if auto_stop {
            Some(meeting.end_at_ms)
        } else {
            None
        };
        self.active_meeting = Some(
            ActiveMeeting {
                meeting,
                recording_session_id,
                end_request_id,
                next_prompt_at_ms,
                prompted: false,
                auto_stop_at_ms,
                auto_stop_claimed: false,
            },
        );
    }

    /// The end prompt for the active meeting, once it is due.
    pub fn due_end_prompt(&mut self, now_ms: u64, active_session_id: u64) -> (r: Option<
        DueEndPrompt,
    >)
        requires
            old(self).wf(),
        ensures
            final(self).wf(),
            (final(self)@, match r {
                Some(p) => Some(p@),
                None => None,
            }) == due_end_prompt_spec(old(self)@, now_ms, active_session_id),
    {
        match &mut self.active_meeting {
            Some(active) => {
                if active.recording_session_id != active_session_id || active.prompted || now_ms
                    < active.next_prompt_at_ms {
                    return None;
                }
                active.prompted = true;
                let floor = now_ms.saturating_add(AUTO_STOP_WARNING_MS);
                active.auto_stop_at_ms =
                    match active.auto_stop_at_ms {
                        Some(stop_at_ms) => Some(
                            if stop_at_ms >= floor {
                                stop_at_ms
                            } else {
                                floor
                            },
                        ),
                        None => None,
                    };
                Some(
                    DueEndPrompt {
                        request_id: copy_string(&active.end_request_id),
                        meeting: active.meeting.duplicate(),
                        auto_stop: active.auto_stop_at_ms.is_some(),
                    },
                )
            },
            None => None,
        }
    }

    /// "Keep recording": re-arms the end reminder for `next_prompt_at_ms` and
    /// cancels an automatic stop that has not been claimed.
    pub fn defer_end_prompt(&mut self, request_id: &str, next_prompt_at_ms: u64)
        requires
            old(self).wf(),
        ensures
            final(self).wf(),
            final(self)@ == defer_end_prompt_spec(old(self)@, request_id@, next_prompt_at_ms),
    {
        let id = owned(request_id);
        match &mut self.active_meeting {
            Some(active) => {
                if active.end_request_id == id && !active.auto_stop_claimed {
                    active.next_prompt_at_ms = next_prompt_at_ms;
                    active.prompted = false;
                    active.auto_stop_at_ms = None;
                }
            },
            None => {},
        }
    }

    /// Postpones the end reminder by ten minutes from `now_ms`.
    pub fn defer_end_prompt_for_later(&mut self, request_id: &str, now_ms: u64)
        requires
            old(self).wf(),
        ensures
            final(self).wf(),
            final(self)@ == defer_end_prompt_spec(
                old(self)@,
                request_id@,
                sat_add(now_ms, END_REMINDER_DELAY_MS),
            ),
    {
        self.defer_end_prompt(request_id, now_ms.saturating_add(END_REMINDER_DELAY_MS));
    }

    /// Claims the automatic stop of the active meeting once it is due.
    pub fn claim_due_auto_stop(&mut self, now_ms: u64, active_session_id: u64) -> (r: Option<
        String,
    >)
        requires
            old(self).wf(),
        ensures
            final(self).wf(),
            (final(self)@, r.deep_view()) == claim_due_auto_stop_spec(
                old(self)@,
                now_ms,
                active_session_id,
            ),
    {
        match &mut self.active_meeting {
            Some(active) => {
                let not_due = match active.auto_stop_at_ms {
                    Some(stop_at) => now_ms < stop_at,
                    None => true,
                };
                if active.recording_session_id != active_session_id || active.auto_stop_claimed
                    || not_due {
                    return None;
                }
                active.auto_stop_claimed = true;
                Some(copy_string(&active.end_request_id))
            },
            None => None,
        }
    }

    /// Releases a claimed automatic stop after it could not be carried out.
    pub fn retry_auto_stop(&mut self, request_id: &str)
        requires
            old(self).wf(),
        ensures
            final(self).wf(),
            final(self)@ == retry_auto_stop_spec(old(self)@, request_id@),
    {
        let id = owned(request_id);
        match &mut self.active_meeting {
            Some(active) => {
                if active.end_request_id == id {
                    active.auto_stop_claimed = false;
                }
            },
            None => {},
        }
    }

    /// Re-arms an end prompt whose notification could not be delivered.
    pub fn retry_end_prompt(&mut self, request_id: &str)
        requires
            old(self).wf(),
        ensures
            final(self).wf(),
            final(self)@ == retry_end_prompt_spec(old(self)@, request_id@),
    {
        let id = owned(request_id);
        match &mut self.active_meeting {
            Some(active) => {
                if active.end_request_id == id {
                    active.prompted = false;
                }
            },
            None => {},
        }
    }

    /// Whether an end action targets the active meeting of this session.
    pub fn matches_active_end_prompt(&self, request_id: &str, active_session_id: u64) -> (r: bool)
        ensures
            r == matches_active_end_prompt_spec(self@, request_id@, active_session_id),
    {
        let id = owned(request_id);
        match &self.active_meeting {
            Some(active) => active.end_request_id == id && active.recording_session_id
                == active_session_id,
            None => false,
        }
    }
}

/// Every pending start prompt is filed under its own request id.
pub proof fn pending_prompts_are_keyed_by_request_id(state: &MeetingSchedulerState)
    requires
        state.wf(),
    ensures
        forall|k: Seq<char>| #[trigger] state@.prompts.contains_key(k) ==> state@.prompts[k].request_id == k,
{
    let s = prompt_views(state.start_prompts@);
    assert forall|k: Seq<char>| #[trigger] state@.prompts.contains_key(k) implies state@.prompts[k].request_id
        == k by {
        let j = choose|j: int| 0 <= j < s.len() && s[j].request_id == k;
        lemma_prompt_map_index(s, j);
    }
}

} // verus!
