//! Where a resumed recording continues.

use vstd::prelude::*;

use super::model::ScheduledMeeting;
use super::state::{classify_selected_thread, ThreadSelection};
use crate::threads::model::{CalendarProvenance, ProvenanceView, ThreadDetail, ThreadStatus, TranscriptSegment};

verus! {

/// The latest segment end among `segs`, or zero.
pub open spec fn last_segment_end(segs: Seq<TranscriptSegment>) -> u64
    decreases segs.len(),
{
    if segs.len() == 0 {
        0
    } else {
        let rest = last_segment_end(segs.drop_last());
        if segs.last().end_ms > rest {
            segs.last().end_ms
        } else {
            rest
        }
    }
}

/// A resumed session starts after the prior recording. Floor to the last segment
/// end so a stale or zero stored duration can't drop new content before it.
pub fn prior_recording_end_ms(thread: &ThreadDetail) -> (r: u64)
    ensures
        r == if thread.summary.duration_ms > last_segment_end(thread.segments@) {
            thread.summary.duration_ms
        } else {
            last_segment_end(thread.segments@)
        },
{
    let mut last: u64 = 0;
    let mut i: usize = 0;
    while i < thread.segments.len()
        invariant
            i <= thread.segments@.len(),
            last == last_segment_end(thread.segments@.take(i as int)),
        decreases thread.segments@.len() - i,
    {
        proof {
            assert(thread.segments@.take(i + 1).drop_last() =~= thread.segments@.take(i as int));
        }
        if thread.segments[i].end_ms > last {
            last = thread.segments[i].end_ms;
        }
        i = i + 1;
    }
    proof {
        assert(thread.segments@.take(i as int) =~= thread.segments@);
    }
    if thread.summary.duration_ms > last {
        thread.summary.duration_ms
    } else {
        last
    }
}

/// The longer of the two recorded channels, an unmeasurable one counting as
/// empty.
pub fn audio_duration_ms(mic_ms: Option<u64>, system_ms: Option<u64>) -> (r: u64)
    ensures
        r == if mic_ms.unwrap_or(0) > system_ms.unwrap_or(0) {
            mic_ms.unwrap_or(0)
        } else {
            system_ms.unwrap_or(0)
        },
{
    let mic = match mic_ms {
        Some(v) => v,
        None => 0,
    };
    let system = match system_ms {
        Some(v) => v,
        None => 0,
    };
    if mic > system {
        mic
    } else {
        system
    }
}

/// The thread a recording goes into.
#[derive(Debug, PartialEq, Eq)]
pub struct SelectedThread {
    pub thread: ThreadDetail,
    /// Where a resumed recording continues; `None` for a fresh one.
    pub resume_offset_ms: Option<u64>,
    /// Whether the thread was created for this recording.
    pub newly_created: bool,
}

/// The title and provenance of a thread created for a new recording: the
/// scheduled meeting's, or a blank title (the thread's own default applies)
/// and no provenance.
pub fn thread_for_new_recording(scheduled_meeting: Option<ScheduledMeeting>) -> (r: (
    String,
    Option<CalendarProvenance>,
))
    ensures
        match scheduled_meeting {
            Some(m) => r.0@ == m.title@ && (r.1 matches Some(p) && p@ == (ProvenanceView {
                event_id: m.event_id@,
                calendar_id: m.calendar_id@,
                attendees: m.attendees.deep_view(),
                start_at_ms: m.start_at_ms,
                end_at_ms: m.end_at_ms,
            })),
            None => r.0@ == Seq::<char>::empty() && r.1 is None,
        },
{
    match scheduled_meeting {
        Some(meeting) => {
            let (title, provenance) = meeting.into_thread_parts();
            (title, Some(provenance))
        },
        None => (String::new(), None),
    }
}

/// An existing thread chosen for a recording: a busy one is refused, an
/// empty one is reused, one with content is resumed after its prior
/// recording.
pub fn select_existing_thread(thread: ThreadDetail) -> (r: Result<SelectedThread, String>)
    ensures
        thread.summary.status != ThreadStatus::Idle ==> (r matches Err(e) && e@
            == "The selected thread is busy recording or transcribing"@),
        thread.summary.status == ThreadStatus::Idle && thread.summary.segment_count == 0 ==> r
            == Ok::<SelectedThread, String>(
            SelectedThread { thread, resume_offset_ms: None, newly_created: false },
        ),
        thread.summary.status == ThreadStatus::Idle && thread.summary.segment_count != 0 ==> r
            == Ok::<SelectedThread, String>(
            SelectedThread {
                thread,
                resume_offset_ms: Some(
                    if thread.summary.duration_ms > last_segment_end(thread.segments@) {
                        thread.summary.duration_ms
                    } else {
                        last_segment_end(thread.segments@)
                    },
                ),
                newly_created: false,
            },
        ),
{
    match classify_selected_thread(thread) {
        Ok(ThreadSelection::Reuse(t)) => Ok(
            SelectedThread { thread: *t, resume_offset_ms: None, newly_created: false },
        ),
        Ok(ThreadSelection::Resume(t)) => {
            let offset = prior_recording_end_ms(&t);
            Ok(SelectedThread { thread: *t, resume_offset_ms: Some(offset), newly_created: false })
        },
        Err(e) => Err(e),
    }
}

proof fn lemma_last_segment_end_bounds(segs: Seq<TranscriptSegment>)
    ensures
        forall|i: int| 0 <= i < segs.len() ==> (#[trigger] segs[i]).end_ms <= last_segment_end(segs),
        last_segment_end(segs) == 0 || exists|i: int|
            0 <= i < segs.len() && (#[trigger] segs[i]).end_ms == last_segment_end(segs),
    decreases segs.len(),
{
    if segs.len() > 0 {
        lemma_last_segment_end_bounds(segs.drop_last());
        let rest = segs.drop_last();
        if last_segment_end(segs) != segs.last().end_ms && last_segment_end(rest) != 0 {
            let i = choose|i: int| 0 <= i < rest.len() && (#[trigger] rest[i]).end_ms == last_segment_end(rest);
            assert(segs[i] == rest[i]);
        }
        assert forall|i: int| 0 <= i < segs.len() implies (#[trigger] segs[i]).end_ms
            <= last_segment_end(segs) by {
            if i < segs.len() - 1 {
                assert(segs[i] == segs.drop_last()[i]);
            }
        }
    }
}

/// A resumed recording starts after everything already in the thread: after
/// its recorded duration and after the end of every segment, even when the
/// stored duration is stale.
pub proof fn resumed_recordings_start_after_prior_content(thread: ThreadDetail)
    ensures
        ({
            let start = if thread.summary.duration_ms > last_segment_end(thread.segments@) {
                thread.summary.duration_ms
            } else {
                last_segment_end(thread.segments@)
            };
            &&& thread.summary.duration_ms <= start
            &&& (start == thread.summary.duration_ms || exists|i: int|
                0 <= i < thread.segments@.len() && (#[trigger] thread.segments@[i]).end_ms == start)
            &&& forall|i: int|
                0 <= i < thread.segments@.len() ==> (#[trigger] thread.segments@[i]).end_ms <= start
        }),
{
    lemma_last_segment_end_bounds(thread.segments@);
}

} // verus!
