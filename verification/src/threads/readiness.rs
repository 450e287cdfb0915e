//! Whether a thread's transcript can be used for retrieval, and how recording
//! moves a thread through its states. The transcript check itself reads the
//! disk; what it found is handed in as `Ok(non_empty)` or the read error.

use vstd::prelude::*;

use super::model::{RetrievalReadiness, ThreadMetadata, ThreadStatus};

verus! {

/// Readiness of a thread whose transcript check gave `transcript`: ready only
/// for a valid, non-empty transcript.
pub open spec fn transcript_readiness_spec(transcript: Result<bool, String>) -> RetrievalReadiness {
    match transcript {
        Ok(true) => RetrievalReadiness::Ready,
        _ => RetrievalReadiness::Unavailable,
    }
}

/// Readiness of a thread in `status`: a busy thread is never ready.
pub open spec fn readiness_for(status: ThreadStatus, transcript: Result<bool, String>) -> RetrievalReadiness {
    match status {
        ThreadStatus::Idle => transcript_readiness_spec(transcript),
        _ => RetrievalReadiness::Unavailable,
    }
}

/// The readiness a transcript check gives.
pub fn transcript_readiness(transcript: &Result<bool, String>) -> (r: RetrievalReadiness)
    ensures
        r == transcript_readiness_spec(*transcript),
{
    match transcript {
        Ok(true) => RetrievalReadiness::Ready,
        _ => RetrievalReadiness::Unavailable,
    }
}

fn readiness_of(status: ThreadStatus, transcript: &Result<bool, String>) -> (r: RetrievalReadiness)
    ensures
        r == readiness_for(status, *transcript),
{
    match status {
        ThreadStatus::Idle => transcript_readiness(transcript),
        _ => RetrievalReadiness::Unavailable,
    }
}

/// Gives metadata written before readiness existed an explicit readiness.
/// Returns whether the metadata changed (and so is to be written back, with
/// its activity time preserved).
pub fn migrate_retrieval_readiness(metadata: &mut ThreadMetadata, transcript: &Result<bool, String>) -> (r: bool)
    ensures
        r == (old(metadata).retrieval_readiness == RetrievalReadiness::Unknown),
        r ==> *final(metadata) == (ThreadMetadata {
            retrieval_readiness: readiness_for(old(metadata).status, *transcript),
            ..*old(metadata)
        }),
        !r ==> *final(metadata) == *old(metadata),
{
    match metadata.retrieval_readiness {
        RetrievalReadiness::Unknown => {
            metadata.retrieval_readiness = readiness_of(metadata.status, transcript);
            true
        },
        _ => false,
    }
}

/// The metadata of a thread in which a recording started at `now_ms`.
pub open spec fn recording_started(metadata: ThreadMetadata, now_ms: u64) -> ThreadMetadata {
    ThreadMetadata {
        status: ThreadStatus::Recording,
        retrieval_readiness: RetrievalReadiness::Unavailable,
        updated_at_ms: now_ms,
        ..metadata
    }
}

/// The metadata of a thread whose recording of `duration_ms` finished at
/// `now_ms`, its transcript check having given `transcript`.
pub open spec fn recording_finished(
    metadata: ThreadMetadata,
    duration_ms: u64,
    transcript: Result<bool, String>,
    now_ms: u64,
) -> ThreadMetadata {
    ThreadMetadata {
        status: ThreadStatus::Idle,
        duration_ms,
        retrieval_readiness: transcript_readiness_spec(transcript),
        updated_at_ms: now_ms,
        ..metadata
    }
}

/// A recording starts in the thread: it is busy and not retrievable.
pub fn mark_recording_started(metadata: &mut ThreadMetadata, now_ms: u64)
    ensures
        *final(metadata) == recording_started(*old(metadata), now_ms),
{
    metadata.status = ThreadStatus::Recording;
    metadata.retrieval_readiness = RetrievalReadiness::Unavailable;
    metadata.updated_at_ms = now_ms;
}

/// A recording that could not start is rolled back: the thread is idle again
/// and as ready as its unchanged transcript.
pub fn mark_recording_aborted(metadata: &mut ThreadMetadata, transcript: &Result<bool, String>, now_ms: u64)
    ensures
        *final(metadata) == (ThreadMetadata {
            status: ThreadStatus::Idle,
            retrieval_readiness: transcript_readiness_spec(*transcript),
            updated_at_ms: now_ms,
            ..*old(metadata)
        }),
{
    metadata.status = ThreadStatus::Idle;
    metadata.retrieval_readiness = transcript_readiness(transcript);
    metadata.updated_at_ms = now_ms;
}

/// Recomputes readiness from the thread's status and transcript, keeping its
/// activity time.
pub fn resolve_retrieval_readiness(metadata: &mut ThreadMetadata, transcript: &Result<bool, String>)
    ensures
        *final(metadata) == (ThreadMetadata {
            retrieval_readiness: readiness_for(old(metadata).status, *transcript),
            ..*old(metadata)
        }),
{
    metadata.retrieval_readiness = readiness_of(metadata.status, transcript);
}

/// A recording finished: the thread is idle, records the duration, and is
/// ready exactly when its transcript is valid and non-empty. Returns whether
/// the thread can now serve retrieval, given the transcript check made after
/// the markdown copy was written (`transcript_afterwards`).
pub fn mark_recording_finished(
    metadata: &mut ThreadMetadata,
    duration_ms: u64,
    transcript: &Result<bool, String>,
    now_ms: u64,
    transcript_afterwards: Result<bool, String>,
) -> (r: Result<bool, String>)
    ensures
        *final(metadata) == recording_finished(*old(metadata), duration_ms, *transcript, now_ms),
        r == retrievable(*final(metadata), transcript_afterwards),
{
    metadata.status = ThreadStatus::Idle;
    metadata.duration_ms = duration_ms;
    metadata.retrieval_readiness = transcript_readiness(transcript);
    metadata.updated_at_ms = now_ms;
    is_thread_retrievable(metadata, transcript_afterwards)
}

/// Whether a thread can serve retrieval: idle, marked ready, and its
/// transcript (checked now) valid and non-empty. A failed transcript check is
/// reported as the error.
pub open spec fn retrievable(metadata: ThreadMetadata, transcript: Result<bool, String>) -> Result<bool, String> {
    if !(metadata.status matches ThreadStatus::Idle) || metadata.retrieval_readiness
        != RetrievalReadiness::Ready {
        Ok(false)
    } else {
        transcript
    }
}

/// Whether a thread can serve retrieval.
pub fn is_thread_retrievable(metadata: &ThreadMetadata, transcript: Result<bool, String>) -> (r:
    Result<bool, String>)
    ensures
        r == retrievable(*metadata, transcript),
{
    let ready = match metadata.retrieval_readiness {
        RetrievalReadiness::Ready => true,
        _ => false,
    };
    if metadata.status.is_busy() || !ready {
        return Ok(false);
    }
    transcript
}

/// A thread is never retrievable while it records, and after its recording
/// finishes it is retrievable exactly when the transcript check at the finish
/// found a valid, non-empty transcript (and a later check still does).
pub proof fn only_a_valid_finish_makes_a_thread_retrievable(
    metadata: ThreadMetadata,
    started_at_ms: u64,
    duration_ms: u64,
    at_finish: Result<bool, String>,
    finished_at_ms: u64,
    later: Result<bool, String>,
)
    ensures
        retrievable(recording_started(metadata, started_at_ms), later) == Ok::<bool, String>(false),
        at_finish != Ok::<bool, String>(true) ==> retrievable(
            recording_finished(
                recording_started(metadata, started_at_ms),
                duration_ms,
                at_finish,
                finished_at_ms,
            ),
            later,
        ) == Ok::<bool, String>(false),
        at_finish == Ok::<bool, String>(true) ==> retrievable(
            recording_finished(
                recording_started(metadata, started_at_ms),
                duration_ms,
                at_finish,
                finished_at_ms,
            ),
            later,
        ) == later,
{
}

/// At startup no recording or transcription is running, so a thread left
/// marked busy by an interrupted session is idle again. Returns whether the
/// metadata changed (and so is to be written back).
pub fn reset_stale_recording_thread(metadata: &mut ThreadMetadata) -> (r: bool)
    ensures
        r == (old(metadata).status != ThreadStatus::Idle),
        *final(metadata) == (ThreadMetadata { status: ThreadStatus::Idle, ..*old(metadata) }),
{
    let busy = metadata.status.is_busy();
    metadata.status = ThreadStatus::Idle;
    busy
}

/// A thread is marked ready exactly when it is idle and its transcript is
/// valid and non-empty; a busy thread, an empty, corrupt or unreadable
/// transcript is never ready.
pub proof fn ready_means_idle_with_a_valid_transcript(status: ThreadStatus, transcript: Result<bool, String>)
    ensures
        readiness_for(status, transcript) == RetrievalReadiness::Ready <==> (status
            == ThreadStatus::Idle && transcript == Ok::<bool, String>(true)),
        readiness_for(status, transcript) != RetrievalReadiness::Ready ==> readiness_for(status, transcript)
            == RetrievalReadiness::Unavailable,
        transcript_readiness_spec(transcript) == RetrievalReadiness::Ready <==> transcript == Ok::<
            bool,
            String,
        >(true),
{
}

} // verus!
