//! The meeting values the scheduler works with, and their mathematical views.

use vstd::prelude::*;

use crate::text::copy_string;

verus! {

/// A calendar the user may pick meetings from.
#[derive(Clone, Debug, PartialEq, Eq)]
pub struct MeetingCalendar {
    pub id: String,
    pub title: String,
    pub account: String,
    pub color: String,
}

/// Calendar and notification permission state, with the selectable calendars.
#[derive(Clone, Debug, PartialEq, Eq)]
pub struct MeetingAccess {
    pub calendar_authorization: String,
    pub notification_authorization: String,
    pub calendars: Vec<MeetingCalendar>,
}

/// A calendar event that qualifies as a meeting.
#[derive(Clone, Debug, PartialEq, Eq)]
pub struct Meeting {
    pub id: String,
    pub calendar_id: String,
    pub title: String,
    pub start_at_ms: u64,
    pub end_at_ms: u64,
    /// Invitees other than the current user, in invite order.
    pub attendees: Vec<String>,
}

pub struct MeetingView {
    pub id: Seq<char>,
    pub calendar_id: Seq<char>,
    pub title: Seq<char>,
    pub start_at_ms: u64,
    pub end_at_ms: u64,
    pub attendees: Seq<Seq<char>>,
}

impl View for Meeting {
    type V = MeetingView;

    open spec fn view(&self) -> MeetingView {
        MeetingView {
            id: self.id@,
            calendar_id: self.calendar_id@,
            title: self.title@,
            start_at_ms: self.start_at_ms,
            end_at_ms: self.end_at_ms,
            attendees: self.attendees.deep_view(),
        }
    }
}

/// A start prompt for a meeting, keyed by its notification request id.
#[derive(Clone, Debug, PartialEq, Eq)]
pub struct MeetingPrompt {
    pub request_id: String,
    pub meeting: Meeting,
    /// Whether confirming the prompt's notification arms an automatic start.
    pub auto_start: bool,
    /// When armed, the earliest time at which the recording starts by itself.
    pub auto_start_after_ms: Option<u64>,
    /// The scheduler's automation revision when the prompt was created.
    pub auto_start_revision: u64,
}

pub struct PromptView {
    pub request_id: Seq<char>,
    pub meeting: MeetingView,
    pub auto_start: bool,
    pub auto_start_after_ms: Option<u64>,
    pub auto_start_revision: u64,
}

impl View for MeetingPrompt {
    type V = PromptView;

    open spec fn view(&self) -> PromptView {
        PromptView {
            request_id: self.request_id@,
            meeting: self.meeting@,
            auto_start: self.auto_start,
            auto_start_after_ms: self.auto_start_after_ms,
            auto_start_revision: self.auto_start_revision,
        }
    }
}

/// An end-of-meeting prompt that has become due.
#[derive(Clone, Debug, PartialEq, Eq)]
pub struct DueEndPrompt {
    pub request_id: String,
    pub meeting: Meeting,
    /// Whether the recording will stop by itself after the warning.
    pub auto_stop: bool,
}

pub struct DueEndView {
    pub request_id: Seq<char>,
    pub meeting: MeetingView,
    pub auto_stop: bool,
}

impl View for DueEndPrompt {
    type V = DueEndView;

    open spec fn view(&self) -> DueEndView {
        DueEndView { request_id: self.request_id@, meeting: self.meeting@, auto_stop: self.auto_stop }
    }
}

/// A copy of a list of strings.
pub fn copy_strings(v: &Vec<String>) -> (r: Vec<String>)
    ensures
        r.deep_view() == v.deep_view(),
{
    let mut r: Vec<String> = Vec::new();
    let mut i: usize = 0;
    while i < v.len()
        invariant
            i <= v@.len(),
            r@.len() == i,
            forall|j: int| 0 <= j < i ==> #[trigger] r@[j]@ == v@[j]@,
        decreases v@.len() - i,
    {
        r.push(copy_string(&v[i]));
        i = i + 1;
    }
    proof {
        assert(r.deep_view() =~= v.deep_view());
    }
    r
}

/// Whether two lists of strings hold the same strings in the same order.
pub fn strings_eq(a: &Vec<String>, b: &Vec<String>) -> (r: bool)
    ensures
        r == (a.deep_view() == b.deep_view()),
{
    if a.len() != b.len() {
        proof {
            assert(a.deep_view().len() != b.deep_view().len());
        }
        return false;
    }
    let mut i: usize = 0;
    while i < a.len()
        invariant
            a@.len() == b@.len(),
            i <= a@.len(),
            forall|j: int| 0 <= j < i ==> #[trigger] a@[j]@ == b@[j]@,
        decreases a@.len() - i,
    {
        if a[i] != b[i] {
            proof {
                assert(a.deep_view()[i as int] != b.deep_view()[i as int]);
            }
            return false;
        }
        i = i + 1;
    }
    proof {
        assert(a.deep_view() =~= b.deep_view());
    }
    true
}

impl Meeting {
    /// A copy of this meeting.
    pub fn duplicate(&self) -> (r: Meeting)
        ensures
            r@ == self@,
    {
        Meeting {
            id: copy_string(&self.id),
            calendar_id: copy_string(&self.calendar_id),
            title: copy_string(&self.title),
            start_at_ms: self.start_at_ms,
            end_at_ms: self.end_at_ms,
            attendees: copy_strings(&self.attendees),
        }
    }

    /// Whether two meetings hold the same calendar facts.
    pub fn same_as(&self, other: &Meeting) -> (r: bool)
        ensures
            r == (self@ == other@),
    {
        self.id == other.id && self.calendar_id == other.calendar_id && self.title == other.title
            && self.start_at_ms == other.start_at_ms && self.end_at_ms == other.end_at_ms
            && strings_eq(&self.attendees, &other.attendees)
    }
}

impl MeetingPrompt {
    /// A copy of this prompt.
    pub fn duplicate(&self) -> (r: MeetingPrompt)
        ensures
            r@ == self@,
    {
        MeetingPrompt {
            request_id: copy_string(&self.request_id),
            meeting: self.meeting.duplicate(),
            auto_start: self.auto_start,
            auto_start_after_ms: self.auto_start_after_ms,
            auto_start_revision: self.auto_start_revision,
        }
    }
}

} // verus!
