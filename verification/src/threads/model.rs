//! The thread data the library works with.

use vstd::prelude::*;

use crate::meetings::model::copy_strings;
use crate::text::copy_string;

verus! {

/// Where a thread came from, when it was started from a calendar event. Carried
/// so the thread can be found by who was in it and when, without reading the
/// transcript. `None` for manually started threads.
#[derive(Clone, Debug, PartialEq, Eq)]
pub struct CalendarProvenance {
    /// EventKit occurrence key: event identifier plus that occurrence's start.
    pub event_id: String,
    pub calendar_id: String,
    /// Invitees other than the current user, in invite order.
    pub attendees: Vec<String>,
    pub start_at_ms: u64,
    pub end_at_ms: u64,
}

pub struct ProvenanceView {
    pub event_id: Seq<char>,
    pub calendar_id: Seq<char>,
    pub attendees: Seq<Seq<char>>,
    pub start_at_ms: u64,
    pub end_at_ms: u64,
}

impl View for CalendarProvenance {
    type V = ProvenanceView;

    open spec fn view(&self) -> ProvenanceView {
        ProvenanceView {
            event_id: self.event_id@,
            calendar_id: self.calendar_id@,
            attendees: self.attendees.deep_view(),
            start_at_ms: self.start_at_ms,
            end_at_ms: self.end_at_ms,
        }
    }
}

impl CalendarProvenance {
    /// A copy of this provenance.
    pub fn duplicate(&self) -> (r: CalendarProvenance)
        ensures
            r@ == self@,
    {
        CalendarProvenance {
            event_id: copy_string(&self.event_id),
            calendar_id: copy_string(&self.calendar_id),
            attendees: copy_strings(&self.attendees),
            start_at_ms: self.start_at_ms,
            end_at_ms: self.end_at_ms,
        }
    }
}

/// Whether a thread's transcript can be used for retrieval.
#[derive(Clone, Copy, Debug, PartialEq, Eq, Structural)]
pub enum RetrievalReadiness {
    /// Metadata written before retrieval readiness existed. Startup migration
    /// replaces this with an explicit durable state.
    Unknown,
    Unavailable,
    Ready,
}

/// What a thread is doing.
#[derive(Clone, Copy, Debug, PartialEq, Eq, Structural)]
pub enum ThreadStatus {
    Idle,
    Recording,
    /// Never written. Retained so metadata left behind by earlier versions
    /// still loads; startup clears it to `Idle`.
    Transcribing,
}

impl ThreadStatus {
    /// A thread is busy unless it is idle.
    pub fn is_busy(&self) -> (r: bool)
        ensures
            r == !(*self matches ThreadStatus::Idle),
    {
        match self {
            ThreadStatus::Idle => false,
            _ => true,
        }
    }
}

/// A thread's stored metadata.
#[derive(Clone, Debug, PartialEq, Eq)]
pub struct ThreadMetadata {
    pub id: String,
    pub title: String,
    pub created_at_ms: u64,
    pub updated_at_ms: u64,
    pub status: ThreadStatus,
    pub retrieval_readiness: RetrievalReadiness,
    pub duration_ms: u64,
    pub calendar: Option<CalendarProvenance>,
}

/// A thread as the library lists it.
#[derive(Clone, Debug, PartialEq, Eq)]
pub struct ThreadSummary {
    pub id: String,
    pub title: String,
    pub created_at_ms: u64,
    pub updated_at_ms: u64,
    pub status: ThreadStatus,
    pub segment_count: usize,
    pub duration_ms: u64,
    pub snippet: String,
    pub has_audio: bool,
    pub path: String,
    pub calendar: Option<CalendarProvenance>,
}

/// One utterance of a transcript.
#[derive(Clone, Debug, PartialEq, Eq)]
pub struct TranscriptSegment {
    pub speaker: String,
    pub source: String,
    pub start_ms: u64,
    pub end_ms: u64,
    pub text: String,
}

/// A thread with its transcript.
#[derive(Clone, Debug, PartialEq, Eq)]
pub struct ThreadDetail {
    pub summary: ThreadSummary,
    pub segments: Vec<TranscriptSegment>,
    pub transcript_markdown_path: String,
}

} // verus!
