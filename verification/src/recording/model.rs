//! The calendar event a scheduled recording is started for.

use vstd::prelude::*;

use crate::threads::model::{CalendarProvenance, ProvenanceView};

verus! {

/// The calendar event a scheduled recording is being started for. The meetings
/// context builds this; `recording` maps it onto the thread domain's provenance
/// shape, so `meetings` never names a `threads` type.
#[derive(Clone, Debug, PartialEq, Eq)]
pub struct ScheduledMeeting {
    pub title: String,
    pub event_id: String,
    pub calendar_id: String,
    pub attendees: Vec<String>,
    pub start_at_ms: u64,
    pub end_at_ms: u64,
}

impl ScheduledMeeting {
    /// Splits the meeting into the new thread's title and the provenance stored
    /// alongside it.
    pub fn into_thread_parts(self) -> (r: (String, CalendarProvenance))
        ensures
            r.0@ == self.title@,
            r.1@ == (ProvenanceView {
                event_id: self.event_id@,
                calendar_id: self.calendar_id@,
                attendees: self.attendees.deep_view(),
                start_at_ms: self.start_at_ms,
                end_at_ms: self.end_at_ms,
            }),
    {
        (
            self.title,
            CalendarProvenance {
                event_id: self.event_id,
                calendar_id: self.calendar_id,
                attendees: self.attendees,
                start_at_ms: self.start_at_ms,
                end_at_ms: self.end_at_ms,
            },
        )
    }
}

} // verus!
