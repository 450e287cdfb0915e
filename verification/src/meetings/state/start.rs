//! Start prompts: creation, consumption, automatic starts and reconciliation.

use vstd::prelude::*;

use super::{
    empty_scheduler, has_request, lemma_prompt_map_ext, lemma_prompt_map_index,
    lemma_prompt_map_push, lemma_prompt_map_remove, lemma_prompt_map_update, lists_keys_once,
    next_revision, prompt_map, prompt_views, sat_add, unique_request_ids, MeetingSchedulerState,
    SchedulerView,
};
use crate::meetings::model::{Meeting, MeetingPrompt, MeetingView, PromptView};
use crate::text::{chars_of, compare_chars, copy_string, lemma_seq_lt_trans, owned, seq_lt, Order};

verus! {

/// How late after its scheduled start a meeting may still start by itself.
pub const AUTO_START_LATE_GRACE_MS: u64 = 60000;

/// A fresh prompt for `meeting` under `request_id`, not yet armed.
pub open spec fn new_prompt(
    request_id: Seq<char>,
    meeting: MeetingView,
    auto_start: bool,
    revision: u64,
) -> PromptView {
    PromptView {
        request_id,
        meeting,
        auto_start,
        auto_start_after_ms: None,
        auto_start_revision: revision,
    }
}

pub open spec fn with_prompts(v: SchedulerView, prompts: Map<Seq<char>, PromptView>) -> SchedulerView {
    SchedulerView { prompts, ..v }
}

/// Creates or refreshes a start prompt. An existing request id takes the
/// calendar's latest facts and automation policy, disarming it; a new request
/// id is accepted only for a meeting that was not prompted before.
pub open spec fn upsert_start_prompt_spec(
    v: SchedulerView,
    id: Seq<char>,
    m: MeetingView,
    auto_start: bool,
) -> (SchedulerView, bool) {
    if v.prompts.contains_key(id) {
        if v.prompts[id].meeting == m && v.prompts[id].auto_start == auto_start {
            (v, false)
        } else {
            (with_prompts(v, v.prompts.insert(id, new_prompt(id, m, auto_start, v.revision))), true)
        }
    } else if v.prompted.contains(m.id) {
        (v, false)
    } else {
        (
            SchedulerView {
                prompted: v.prompted.insert(m.id),
                prompts: v.prompts.insert(id, new_prompt(id, m, auto_start, v.revision)),
                ..v
            },
            true,
        )
    }
}

/// Consumes a start prompt.
pub open spec fn take_start_prompt_spec(v: SchedulerView, id: Seq<char>) -> (
    SchedulerView,
    Option<PromptView>,
) {
    if v.prompts.contains_key(id) {
        (with_prompts(v, v.prompts.remove(id)), Some(v.prompts[id]))
    } else {
        (v, None)
    }
}

/// Puts a consumed prompt back, unless automation changed since it was made.
pub open spec fn restore_start_prompt_spec(v: SchedulerView, p: PromptView) -> SchedulerView {
    if p.auto_start_revision != v.revision {
        v
    } else {
        with_prompts(v, v.prompts.insert(p.request_id, p))
    }
}

/// Arms the automatic start of a prompt whose meeting is still `expected`.
pub open spec fn arm_auto_start_spec(
    v: SchedulerView,
    id: Seq<char>,
    expected: MeetingView,
    after_ms: u64,
) -> (SchedulerView, bool) {
    if v.prompts.contains_key(id) && v.prompts[id].auto_start && v.prompts[id].meeting == expected {
        (
            with_prompts(
                v,
                v.prompts.insert(id, PromptView { auto_start_after_ms: Some(after_ms), ..v.prompts[id] }),
            ),
            true,
        )
    } else {
        (v, false)
    }
}

/// Turns a prompt whose meeting is still `expected` into a manual one.
pub open spec fn fallback_to_manual_start_spec(
    v: SchedulerView,
    id: Seq<char>,
    expected: MeetingView,
) -> SchedulerView {
    if v.prompts.contains_key(id) && v.prompts[id].meeting == expected {
        with_prompts(
            v,
            v.prompts.insert(
                id,
                PromptView { auto_start: false, auto_start_after_ms: None, ..v.prompts[id] },
            ),
        )
    } else {
        v
    }
}

/// Whether prompt `a` comes no later than prompt `b`: by scheduled start,
/// then by meeting id.
pub open spec fn prompt_precedes(a: PromptView, b: PromptView) -> bool {
    ||| a.meeting.start_at_ms < b.meeting.start_at_ms
    ||| a.meeting.start_at_ms == b.meeting.start_at_ms && !seq_lt(b.meeting.id, a.meeting.id)
}

/// An armed automatic prompt whose meeting is starting: at or after the armed
/// time and the scheduled start, within a minute of the start, before the end.
pub open spec fn auto_start_due(p: PromptView, now: u64) -> bool {
    &&& p.auto_start
    &&& match p.auto_start_after_ms {
        Some(t) => now >= t,
        None => false,
    }
    &&& now >= p.meeting.start_at_ms
    &&& now < sat_add(p.meeting.start_at_ms, AUTO_START_LATE_GRACE_MS)
    &&& now < p.meeting.end_at_ms
}

/// A prompt that may start its recording now: due, and its meeting has not
/// had an automatic start attempt.
pub open spec fn auto_start_candidate(v: SchedulerView, k: Seq<char>, now: u64) -> bool {
    &&& v.prompts.contains_key(k)
    &&& auto_start_due(v.prompts[k], now)
    &&& !v.attempted.contains(v.prompts[k].meeting.id)
}

/// The prompts of `m` whose meeting is among `valid`.
pub open spec fn prompts_for(m: Map<Seq<char>, PromptView>, valid: Set<Seq<char>>) -> Map<
    Seq<char>,
    PromptView,
> {
    Map::new(|k: Seq<char>| m.contains_key(k) && valid.contains(m[k].meeting.id), |k: Seq<char>| m[k])
}

/// The prompts of `m` whose meeting is not among `valid`.
pub open spec fn prompts_outside(m: Map<Seq<char>, PromptView>, valid: Set<Seq<char>>) -> Map<
    Seq<char>,
    PromptView,
> {
    Map::new(|k: Seq<char>| m.contains_key(k) && !valid.contains(m[k].meeting.id), |k: Seq<char>| m[k])
}

/// Keeps only what concerns meetings the calendar still lists as timely.
pub open spec fn reconcile_start_prompts_spec(v: SchedulerView, valid: Set<Seq<char>>) -> SchedulerView {
    SchedulerView {
        prompted: v.prompted.intersect(valid),
        attempted: v.attempted.intersect(valid),
        prompts: prompts_for(v.prompts, valid),
        ..v
    }
}

/// Drops every start prompt and bumps the automation revision.
pub open spec fn clear_start_prompts_spec(v: SchedulerView) -> SchedulerView {
    SchedulerView { active: v.active, ..empty_scheduler(next_revision(v.revision)) }
}

fn find_prompt(prompts: &Vec<MeetingPrompt>, request_id: &String) -> (r: Option<usize>)
    ensures
        match r {
            Some(i) => i < prompts@.len() && prompts@[i as int]@.request_id == request_id@,
            None => !has_request(prompt_views(prompts@), request_id@),
        },
{
    let mut i: usize = 0;
    while i < prompts.len()
        invariant
            i <= prompts@.len(),
            forall|j: int| 0 <= j < i ==> #[trigger] prompts@[j]@.request_id != request_id@,
        decreases prompts@.len() - i,
    {
        if prompts[i].request_id == *request_id {
            return Some(i);
        }
        i = i + 1;
    }
    proof {
        let s = prompt_views(prompts@);
        if has_request(s, request_id@) {
            let j = choose|j: int| 0 <= j < s.len() && s[j].request_id == request_id@;
            assert(prompts@[j]@.request_id == request_id@);
        }
    }
    None
}

/// Whether `v` lists `s`.
pub fn contains_string(v: &Vec<String>, s: &String) -> (r: bool)
    ensures
        r == v.deep_view().contains(s@),
{
    let mut i: usize = 0;
    while i < v.len()
        invariant
            i <= v@.len(),
            forall|j: int| 0 <= j < i ==> #[trigger] v@[j]@ != s@,
        decreases v@.len() - i,
    {
        if v[i] == *s {
            proof {
                assert(v.deep_view()[i as int] == s@);
            }
            return true;
        }
        i = i + 1;
    }
    proof {
        if v.deep_view().contains(s@) {
            let j = choose|j: int| 0 <= j < v.deep_view().len() && v.deep_view()[j] == s@;
            assert(v@[j]@ == s@);
        }
    }
    false
}

/// The strings of `v` that are also in `valid`.
fn retain_listed(v: &Vec<String>, valid: &Vec<String>) -> (r: Vec<String>)
    ensures
        r.deep_view().to_set() == v.deep_view().to_set().intersect(valid.deep_view().to_set()),
{
    let mut r: Vec<String> = Vec::new();
    let mut i: usize = 0;
    while i < v.len()
        invariant
            i <= v@.len(),
            r.deep_view().to_set() == v.deep_view().take(i as int).to_set().intersect(
                valid.deep_view().to_set(),
            ),
        decreases v@.len() - i,
    {
        let listed = contains_string(valid, &v[i]);
        let ghost x = v@[i as int]@;
        let ghost before = r.deep_view();
        proof {
            assert(v.deep_view().take(i + 1) =~= v.deep_view().take(i as int).push(x));
            v.deep_view().take(i as int).lemma_push_to_set_commute(x);
        }
        if listed {
            r.push(copy_string(&v[i]));
            proof {
                assert(r.deep_view() =~= before.push(x));
                before.lemma_push_to_set_commute(x);
            }
        }
        proof {
            assert(r.deep_view().to_set() =~= v.deep_view().take(i + 1).to_set().intersect(
                valid.deep_view().to_set(),
            ));
        }
        i = i + 1;
    }
    proof {
        assert(v.deep_view().take(i as int) =~= v.deep_view());
    }
    r
}


/// The view of an optional prompt.
pub open spec fn prompt_opt(o: Option<MeetingPrompt>) -> Option<PromptView> {
    match o {
        Some(p) => Some(p@),
        None => None,
    }
}

proof fn lemma_views_update(s: Seq<MeetingPrompt>, i: int, p: MeetingPrompt)
    requires
        0 <= i < s.len(),
    ensures
        prompt_views(s.update(i, p)) == prompt_views(s).update(i, p@),
{
    assert(prompt_views(s.update(i, p)) =~= prompt_views(s).update(i, p@));
}

proof fn lemma_views_push(s: Seq<MeetingPrompt>, p: MeetingPrompt)
    ensures
        prompt_views(s.push(p)) == prompt_views(s).push(p@),
{
    assert(prompt_views(s.push(p)) =~= prompt_views(s).push(p@));
}

proof fn lemma_views_remove(s: Seq<MeetingPrompt>, i: int)
    requires
        0 <= i < s.len(),
    ensures
        prompt_views(s.remove(i)) == prompt_views(s).remove(i),
{
    assert(prompt_views(s.remove(i)) =~= prompt_views(s).remove(i));
}

impl MeetingSchedulerState {
    /// Whether the pending prompt `request_id` would start its recording itself.
    pub fn start_prompt_is_automatic(&self, request_id: &str) -> (r: bool)
        requires
            self.wf(),
        ensures
            r == (self@.prompts.contains_key(request_id@) && self@.prompts[request_id@].auto_start),
    {
        let id = owned(request_id);
        match find_prompt(&self.start_prompts, &id) {
            Some(i) => {
                proof {
                    lemma_prompt_map_index(prompt_views(self.start_prompts@), i as int);
                }
                self.start_prompts[i].auto_start
            },
            None => false,
        }
    }

    /// Creates or refreshes the start prompt `request_id` for `meeting`;
    /// returns whether a notification should be shown for it.
    pub fn upsert_start_prompt(&mut self, request_id: String, meeting: Meeting, auto_start: bool) -> (r:
        bool)
        requires
            old(self).wf(),
        ensures
            final(self).wf(),
            (final(self)@, r) == upsert_start_prompt_spec(
                old(self)@,
                request_id@,
                meeting@,
                auto_start,
            ),
    {
        let ghost s = self.start_prompts@;
        match find_prompt(&self.start_prompts, &request_id) {
            Some(i) => {
                proof {
                    lemma_prompt_map_index(prompt_views(s), i as int);
                }
                if self.start_prompts[i].meeting.same_as(&meeting) && self.start_prompts[i].auto_start
                    == auto_start {
                    return false;
                }
                let prompt = MeetingPrompt {
                    request_id,
                    meeting,
                    auto_start,
                    auto_start_after_ms: None,
                    auto_start_revision: self.auto_start_revision,
                };
                proof {
                    lemma_views_update(s, i as int, prompt);
                    lemma_prompt_map_update(prompt_views(s), i as int, prompt@);
                }
                self.start_prompts.set(i, prompt);
                true
            },
            None => {
                if contains_string(&self.prompted_meetings, &meeting.id) {
                    return false;
                }
                let ghost before = self.prompted_meetings.deep_view();
                self.prompted_meetings.push(copy_string(&meeting.id));
                let prompt = MeetingPrompt {
                    request_id,
                    meeting,
                    auto_start,
                    auto_start_after_ms: None,
                    auto_start_revision: self.auto_start_revision,
                };
                proof {
                    assert(self.prompted_meetings.deep_view() =~= before.push(prompt.meeting.id@));
                    before.lemma_push_to_set_commute(prompt.meeting.id@);
                    lemma_views_push(s, prompt);
                    lemma_prompt_map_push(prompt_views(s), prompt@);
                }
                self.start_prompts.push(prompt);
                true
            },
        }
    }

    /// Consumes the start prompt `request_id`.
    pub fn take_start_prompt(&mut self, request_id: &str) -> (r: Option<MeetingPrompt>)
        requires
            old(self).wf(),
        ensures
            final(self).wf(),
            (final(self)@, prompt_opt(r)) == take_start_prompt_spec(old(self)@, request_id@),
            r matches Some(p) ==> p.request_id@ == request_id@,
    {
        let id = owned(request_id);
        let ghost s = self.start_prompts@;
        match find_prompt(&self.start_prompts, &id) {
            Some(i) => {
                proof {
                    lemma_prompt_map_index(prompt_views(s), i as int);
                    lemma_views_remove(s, i as int);
                    lemma_prompt_map_remove(prompt_views(s), i as int);
                }
                Some(self.start_prompts.remove(i))
            },
            None => None,
        }
    }

    /// Dismisses the start prompt `request_id`; returns whether it was pending.
    pub fn dismiss_start_prompt(&mut self, request_id: &str) -> (r: bool)
        requires
            old(self).wf(),
        ensures
            final(self).wf(),
            final(self)@ == take_start_prompt_spec(old(self)@, request_id@).0,
            r == old(self)@.prompts.contains_key(request_id@),
    {
        self.take_start_prompt(request_id).is_some()
    }

    /// Puts back a prompt whose recording could not start, unless automation
    /// changed since the prompt was made.
    pub fn restore_start_prompt(&mut self, prompt: MeetingPrompt)
        requires
            old(self).wf(),
        ensures
            final(self).wf(),
            final(self)@ == restore_start_prompt_spec(old(self)@, prompt@),
    {
        if prompt.auto_start_revision != self.auto_start_revision {
            return ;
        }
        let ghost s = self.start_prompts@;
        match find_prompt(&self.start_prompts, &prompt.request_id) {
            Some(i) => {
                proof {
                    lemma_views_update(s, i as int, prompt);
                    lemma_prompt_map_update(prompt_views(s), i as int, prompt@);
                }
                self.start_prompts.set(i, prompt);
            },
            None => {
                proof {
                    lemma_views_push(s, prompt);
                    lemma_prompt_map_push(prompt_views(s), prompt@);
                }
                self.start_prompts.push(prompt);
            },
        }
    }

    /// Arms the automatic start of `request_id` at `auto_start_after_ms`,
    /// provided it is automatic and still describes `expected_meeting`.
    pub fn arm_auto_start(
        &mut self,
        request_id: &str,
        expected_meeting: &Meeting,
        auto_start_after_ms: u64,
    ) -> (r: bool)
        requires
            old(self).wf(),
        ensures
            final(self).wf(),
            (final(self)@, r) == arm_auto_start_spec(
                old(self)@,
                request_id@,
                expected_meeting@,
                auto_start_after_ms,
            ),
    {
        let id = owned(request_id);
        let ghost s = self.start_prompts@;
        match find_prompt(&self.start_prompts, &id) {
            Some(i) => {
                proof {
                    lemma_prompt_map_index(prompt_views(s), i as int);
                }
                if !self.start_prompts[i].auto_start || !self.start_prompts[i].meeting.same_as(
                    expected_meeting,
                ) {
                    return false;
                }
                let mut prompt = self.start_prompts[i].duplicate();
                prompt.auto_start_after_ms = Some(auto_start_after_ms);
                proof {
                    lemma_views_update(s, i as int, prompt);
                    lemma_prompt_map_update(prompt_views(s), i as int, prompt@);
                }
                self.start_prompts.set(i, prompt);
                true
            },
            None => false,
        }
    }

    /// Makes `request_id` a manual prompt, provided it still describes
    /// `expected_meeting`.
    pub fn fallback_to_manual_start(&mut self, request_id: &str, expected_meeting: &Meeting)
        requires
            old(self).wf(),
        ensures
            final(self).wf(),
            final(self)@ == fallback_to_manual_start_spec(
                old(self)@,
                request_id@,
                expected_meeting@,
            ),
    {
        let id = owned(request_id);
        let ghost s = self.start_prompts@;
        match find_prompt(&self.start_prompts, &id) {
            Some(i) => {
                proof {
                    lemma_prompt_map_index(prompt_views(s), i as int);
                }
                if !self.start_prompts[i].meeting.same_as(expected_meeting) {
                    return ;
                }
                let mut prompt = self.start_prompts[i].duplicate();
                prompt.auto_start = false;
                prompt.auto_start_after_ms = None;
                proof {
                    lemma_views_update(s, i as int, prompt);
                    lemma_prompt_map_update(prompt_views(s), i as int, prompt@);
                }
                self.start_prompts.set(i, prompt);
            },
            None => {},
        }
    }
}


/// Whether prompt `a` comes strictly before prompt `b`.
fn strictly_before(a: &MeetingPrompt, b: &MeetingPrompt) -> (r: bool)
    ensures
        r == !prompt_precedes(b@, a@),
{
    if a.meeting.start_at_ms < b.meeting.start_at_ms {
        true
    } else if a.meeting.start_at_ms > b.meeting.start_at_ms {
        false
    } else {
        let x = chars_of(a.meeting.id.as_str());
        let y = chars_of(b.meeting.id.as_str());
        match compare_chars(&x, &y) {
            Order::Less => true,
            _ => false,
        }
    }
}

proof fn lemma_precedes_step(a: PromptView, b: PromptView, c: PromptView)
    requires
        !prompt_precedes(b, a),
        prompt_precedes(b, c),
    ensures
        prompt_precedes(a, c),
{
    if a.meeting.start_at_ms == c.meeting.start_at_ms && seq_lt(c.meeting.id, a.meeting.id) {
        lemma_seq_lt_trans(c.meeting.id, a.meeting.id, b.meeting.id);
    }
}

/// Whether `p` is an automatic prompt whose start is due at `now`.
fn is_auto_start_due(p: &MeetingPrompt, now_ms: u64) -> (r: bool)
    ensures
        r == auto_start_due(p@, now_ms),
{
    let armed = match p.auto_start_after_ms {
        Some(t) => now_ms >= t,
        None => false,
    };
    p.auto_start && armed && now_ms >= p.meeting.start_at_ms && now_ms
        < p.meeting.start_at_ms.saturating_add(AUTO_START_LATE_GRACE_MS) && now_ms
        < p.meeting.end_at_ms
}

/// The request ids of `prompts`, each once.
fn all_request_ids(prompts: &Vec<MeetingPrompt>) -> (r: Vec<String>)
    requires
        unique_request_ids(prompt_views(prompts@)),
    ensures
        lists_keys_once(r.deep_view(), prompt_map(prompt_views(prompts@))),
{
    let ghost s = prompt_views(prompts@);
    let mut r: Vec<String> = Vec::new();
    let mut i: usize = 0;
    while i < prompts.len()
        invariant
            s == prompt_views(prompts@),
            unique_request_ids(s),
            i <= prompts@.len(),
            r@.len() == i,
            forall|j: int| 0 <= j < i ==> #[trigger] r@[j]@ == s[j].request_id,
        decreases prompts@.len() - i,
    {
        r.push(copy_string(&prompts[i].request_id));
        i = i + 1;
    }
    proof {
        let ids = r.deep_view();
        assert forall|a: int, b: int| 0 <= a < ids.len() && 0 <= b < ids.len() && a != b implies ids[a]
            != ids[b] by {
            assert(ids[a] == s[a].request_id);
            assert(ids[b] == s[b].request_id);
        }
        assert forall|k: Seq<char>| ids.contains(k) <==> prompt_map(s).contains_key(k) by {
            if ids.contains(k) {
                let j = choose|j: int| 0 <= j < ids.len() && ids[j] == k;
                assert(s[j].request_id == k);
            }
            if prompt_map(s).contains_key(k) {
                let j = choose|j: int| 0 <= j < s.len() && s[j].request_id == k;
                assert(ids[j] == k);
            }
        }
    }
    r
}

impl MeetingSchedulerState {
    /// The pending start prompt that comes first (by scheduled start, then by
    /// meeting id).
    pub fn current_start_prompt(&self) -> (r: Option<MeetingPrompt>)
        requires
            self.wf(),
        ensures
            (r is None) == (forall|k: Seq<char>| !self@.prompts.contains_key(k)),
            r matches Some(p) ==> {
                &&& self@.prompts.contains_key(p@.request_id)
                &&& self@.prompts[p@.request_id] == p@
                &&& forall|k: Seq<char>| #[trigger]
                    self@.prompts.contains_key(k) ==> prompt_precedes(p@, self@.prompts[k])
            },
    {
        let ghost s = prompt_views(self.start_prompts@);
        if self.start_prompts.len() == 0 {
            proof {
                assert forall|k: Seq<char>| !self@.prompts.contains_key(k) by {
                    assert(!has_request(s, k));
                }
            }
            return None;
        }
        let mut best: usize = 0;
        let mut i: usize = 1;
        proof {
            crate::text::lemma_seq_lt_irreflexive(s[0].meeting.id);
        }
        while i < self.start_prompts.len()
            invariant
                s == prompt_views(self.start_prompts@),
                best < i <= s.len(),
                forall|j: int| 0 <= j < i ==> prompt_precedes(s[best as int], #[trigger] s[j]),
            decreases s.len() - i,
        {
            if strictly_before(&self.start_prompts[i], &self.start_prompts[best]) {
                proof {
                    assert forall|j: int| 0 <= j < i + 1 implies prompt_precedes(
                        s[i as int],
                        #[trigger] s[j],
                    ) by {
                        if j < i {
                            lemma_precedes_step(s[i as int], s[best as int], s[j]);
                        } else {
                            crate::text::lemma_seq_lt_irreflexive(s[j].meeting.id);
                        }
                    }
                }
                best = i;
            }
            i = i + 1;
        }
        proof {
            lemma_prompt_map_index(s, best as int);
            assert(self@.prompts.contains_key(s[best as int].request_id));
            assert forall|k: Seq<char>| #[trigger]
                self@.prompts.contains_key(k) implies prompt_precedes(
                s[best as int],
                self@.prompts[k],
            ) by {
                let j = choose|j: int| 0 <= j < s.len() && s[j].request_id == k;
                lemma_prompt_map_index(s, j);
            }
        }
        Some(self.start_prompts[best].duplicate())
    }

    /// The automatic prompt whose recording should start now, if any; its
    /// meeting is marked so it is never started automatically again.
    pub fn take_due_auto_start(&mut self, now_ms: u64) -> (r: Option<String>)
        requires
            old(self).wf(),
        ensures
            final(self).wf(),
            (r is None) == (forall|k: Seq<char>| !auto_start_candidate(old(self)@, k, now_ms)),
            r is None ==> final(self)@ == old(self)@,
            r matches Some(id) ==> {
                &&& auto_start_candidate(old(self)@, id@, now_ms)
                &&& forall|k: Seq<char>| #[trigger]
                    auto_start_candidate(old(self)@, k, now_ms) ==> prompt_precedes(
                        old(self)@.prompts[id@],
                        old(self)@.prompts[k],
                    )
                &&& final(self)@ == SchedulerView {
                    attempted: old(self)@.attempted.insert(old(self)@.prompts[id@].meeting.id),
                    ..old(self)@
                }
            },
    {
        let ghost s = prompt_views(self.start_prompts@);
        let ghost v = self@;
        let mut best: Option<usize> = None;
        let mut i: usize = 0;
        while i < self.start_prompts.len()
            invariant
                s == prompt_views(self.start_prompts@),
                v == self@,
                unique_request_ids(s),
                i <= s.len(),
                forall|j: int|
                    0 <= j < i && auto_start_due(s[j], now_ms) && !v.attempted.contains(
                        s[j].meeting.id,
                    ) ==> match best {
                        Some(b) => prompt_precedes(s[b as int], #[trigger] s[j]),
                        None => false,
                    },
                best matches Some(b) ==> b < i && auto_start_due(s[b as int], now_ms)
                    && !v.attempted.contains(s[b as int].meeting.id),
            decreases s.len() - i,
        {
            let candidate = is_auto_start_due(&self.start_prompts[i], now_ms) && !contains_string(
                &self.auto_start_attempted,
                &self.start_prompts[i].meeting.id,
            );
            if candidate {
                let better = match best {
                    Some(b) => strictly_before(&self.start_prompts[i], &self.start_prompts[b]),
                    None => true,
                };
                if better {
                    proof {
                        assert forall|j: int|
                            0 <= j < i + 1 && auto_start_due(s[j], now_ms) && !v.attempted.contains(
                                s[j].meeting.id,
                            ) implies prompt_precedes(s[i as int], #[trigger] s[j]) by {
                            if j < i {
                                let b = best->0;
                                lemma_precedes_step(s[i as int], s[b as int], s[j]);
                            } else {
                                crate::text::lemma_seq_lt_irreflexive(s[j].meeting.id);
                            }
                        }
                    }
                    best = Some(i);
                }
            }
            i = i + 1;
        }
        match best {
            None => {
                proof {
                    assert forall|k: Seq<char>| !auto_start_candidate(v, k, now_ms) by {
                        if v.prompts.contains_key(k) {
                            let j = choose|j: int| 0 <= j < s.len() && s[j].request_id == k;
                            lemma_prompt_map_index(s, j);
                        }
                    }
                }
                None
            },
            Some(b) => {
                proof {
                    lemma_prompt_map_index(s, b as int);
                    assert(auto_start_candidate(v, s[b as int].request_id, now_ms));
                    assert forall|k: Seq<char>| #[trigger]
                        auto_start_candidate(v, k, now_ms) implies prompt_precedes(
                        v.prompts[s[b as int].request_id],
                        v.prompts[k],
                    ) by {
                        let j = choose|j: int| 0 <= j < s.len() && s[j].request_id == k;
                        lemma_prompt_map_index(s, j);
                    }
                }
                let ghost before = self.auto_start_attempted.deep_view();
                let meeting_id = copy_string(&self.start_prompts[b].meeting.id);
                self.auto_start_attempted.push(meeting_id);
                proof {
                    assert(self.auto_start_attempted.deep_view() =~= before.push(
                        s[b as int].meeting.id,
                    ));
                    before.lemma_push_to_set_commute(s[b as int].meeting.id);
                }
                Some(copy_string(&self.start_prompts[b].request_id))
            },
        }
    }

    /// Runs `start` only while the automation revision is still `revision`.
    pub fn with_auto_start_consent<T, F: FnOnce() -> Result<T, String>>(
        &self,
        revision: u64,
        start: F,
    ) -> (r: Result<T, String>)
        requires
            revision == self@.revision ==> call_requires(start, ()),
        ensures
            revision != self@.revision ==> (r matches Err(e) && e@
                == "Automatic recording was disabled"@),
            revision == self@.revision ==> call_ensures(start, (), r),
    {
        if revision != self.auto_start_revision {
            return Err(owned("Automatic recording was disabled"));
        }
        start()
    }

    /// Drops prompts for meetings the calendar no longer lists as timely, and
    /// forgets those meetings; returns the request ids it dropped.
    pub fn reconcile_start_prompts(&mut self, valid_meeting_ids: &Vec<String>) -> (r: Vec<String>)
        requires
            old(self).wf(),
        ensures
            final(self).wf(),
            final(self)@ == reconcile_start_prompts_spec(
                old(self)@,
                valid_meeting_ids.deep_view().to_set(),
            ),
            lists_keys_once(
                r.deep_view(),
                prompts_outside(old(self)@.prompts, valid_meeting_ids.deep_view().to_set()),
            ),
    {
        let ghost vs = valid_meeting_ids.deep_view().to_set();
        let ghost s = prompt_views(self.start_prompts@);
        let mut kept: Vec<MeetingPrompt> = Vec::new();
        let mut removed: Vec<String> = Vec::new();
        let mut i: usize = 0;
        proof {
            assert(prompt_views(kept@) =~= Seq::<PromptView>::empty());
            assert(prompt_map(prompt_views(kept@)) =~= prompts_for(prompt_map(s.take(0)), vs));
            assert(removed.deep_view() =~= Seq::<Seq<char>>::empty());
        }
        while i < self.start_prompts.len()
            invariant
                s == prompt_views(self.start_prompts@),
                unique_request_ids(s),
                vs == valid_meeting_ids.deep_view().to_set(),
                i <= s.len(),
                unique_request_ids(prompt_views(kept@)),
                prompt_map(prompt_views(kept@)) == prompts_for(prompt_map(s.take(i as int)), vs),
                lists_keys_once(
                    removed.deep_view(),
                    prompts_outside(prompt_map(s.take(i as int)), vs),
                ),
            decreases s.len() - i,
        {
            let ghost t = s.take(i as int);
            let ghost p = s[i as int];
            proof {
                assert(s.take(i + 1) =~= t.push(p));
                assert(unique_request_ids(t));
                assert(!has_request(t, p.request_id)) by {
                    if has_request(t, p.request_id) {
                        let j = choose|j: int| 0 <= j < t.len() && t[j].request_id == p.request_id;
                        assert(s[j].request_id == s[i as int].request_id);
                    }
                }
                lemma_prompt_map_push(t, p);
            }
            let valid = contains_string(valid_meeting_ids, &self.start_prompts[i].meeting.id);
            if valid {
                let ghost kv = prompt_views(kept@);
                proof {
                    assert(!has_request(kv, p.request_id)) by {
                        if has_request(kv, p.request_id) {
                            assert(prompt_map(kv).contains_key(p.request_id));
                        }
                    }
                    lemma_prompt_map_push(kv, p);
                }
                let dup = self.start_prompts[i].duplicate();
                proof {
                    lemma_views_push(kept@, dup);
                }
                kept.push(dup);
                proof {
                    assert(prompt_map(prompt_views(kept@)) =~= prompts_for(
                        prompt_map(s.take(i + 1)),
                        vs,
                    ));
                    assert(prompts_outside(prompt_map(s.take(i + 1)), vs) =~= prompts_outside(
                        prompt_map(t),
                        vs,
                    ));
                }
            } else {
                let ghost before = removed.deep_view();
                removed.push(copy_string(&self.start_prompts[i].request_id));
                proof {
                    assert(removed.deep_view() =~= before.push(p.request_id));
                    assert(!before.contains(p.request_id));
                    assert(prompt_map(prompt_views(kept@)) =~= prompts_for(
                        prompt_map(s.take(i + 1)),
                        vs,
                    ));
                    let m2 = prompts_outside(prompt_map(s.take(i + 1)), vs);
                    assert forall|k: Seq<char>| removed.deep_view().contains(k) <==> m2.contains_key(
                        k,
                    ) by {
                        if removed.deep_view().contains(k) && k != p.request_id {
                            let j = choose|j: int|
                                0 <= j < removed.deep_view().len() && removed.deep_view()[j] == k;
                            assert(before[j] == k);
                        }
                        if before.contains(k) {
                            let j = choose|j: int| 0 <= j < before.len() && before[j] == k;
                            assert(removed.deep_view()[j] == k);
                        }
                        if k == p.request_id {
                            assert(removed.deep_view()[before.len() as int] == k);
                        }
                    }
                    assert forall|a: int, b: int|
                        0 <= a < removed.deep_view().len() && 0 <= b < removed.deep_view().len()
                            && a != b implies removed.deep_view()[a] != removed.deep_view()[b] by {
                        if a < before.len() && b < before.len() {
                        } else if a < before.len() {
                            assert(before.contains(before[a]));
                        } else if b < before.len() {
                            assert(before.contains(before[b]));
                        }
                    }
                }
            }
            i = i + 1;
        }
        proof {
            assert(s.take(s.len() as int) =~= s);
        }
        self.start_prompts = kept;
        self.prompted_meetings = retain_listed(&self.prompted_meetings, valid_meeting_ids);
        self.auto_start_attempted = retain_listed(&self.auto_start_attempted, valid_meeting_ids);
        removed
    }

    /// Drops every start prompt and every record of prompted or attempted
    /// meetings, and bumps the automation revision so that consent given
    /// before cannot start a recording; returns the dropped request ids.
    pub fn clear_start_prompts(&mut self) -> (r: Vec<String>)
        requires
            old(self).wf(),
        ensures
            final(self).wf(),
            final(self)@ == clear_start_prompts_spec(old(self)@),
            lists_keys_once(r.deep_view(), old(self)@.prompts),
    {
        let ids = all_request_ids(&self.start_prompts);
        self.start_prompts = Vec::new();
        self.prompted_meetings = Vec::new();
        self.auto_start_attempted = Vec::new();
        self.auto_start_revision = if self.auto_start_revision == u64::MAX {
            0
        } else {
            self.auto_start_revision + 1
        };
        proof {
            assert(self@.prompted =~= Set::<Seq<char>>::empty());
            assert(self@.attempted =~= Set::<Seq<char>>::empty());
            assert(self@.prompts =~= Map::<Seq<char>, PromptView>::empty());
        }
        ids
    }

    /// Forgets everything (meeting reminders were turned off); returns the
    /// request ids of every pending start prompt and, last, the active
    /// meeting's end prompt.
    pub fn reset(&mut self) -> (r: Vec<String>)
        requires
            old(self).wf(),
        ensures
            final(self).wf(),
            final(self)@ == empty_scheduler(next_revision(old(self)@.revision)),
            match old(self)@.active {
                Some(a) => r.deep_view().len() > 0 && r.deep_view().last() == a.end_request_id
                    && lists_keys_once(r.deep_view().drop_last(), old(self)@.prompts),
                None => lists_keys_once(r.deep_view(), old(self)@.prompts),
            },
    {
        let mut ids = all_request_ids(&self.start_prompts);
        let ghost before = ids.deep_view();
        match self.active_meeting.take() {
            Some(active) => {
                ids.push(active.end_request_id);
                proof {
                    assert(ids.deep_view() =~= before.push(ids@.last()@));
                    assert(ids.deep_view().drop_last() =~= before);
                }
            },
            None => {},
        }
        self.clear_start_prompts();
        ids
    }
}

} // verus!
