//! The disk footprint of the thread library, and which threads' raw audio can
//! be reclaimed. The sizes are measured on disk; this module adds them up.

use vstd::prelude::*;

use super::model::ThreadStatus;

verus! {

/// What one thread folder occupies.
#[derive(Clone, Copy, Debug, PartialEq, Eq)]
pub struct ThreadFootprint {
    pub total_bytes: u64,
    pub raw_audio_bytes: u64,
    /// The thread's status, `None` when its metadata could not be read.
    pub status: Option<ThreadStatus>,
}

/// The library's footprint.
#[derive(Clone, Copy, Debug, PartialEq, Eq, Default)]
pub struct StorageUsage {
    pub total_bytes: u64,
    pub raw_audio_bytes: u64,
    /// Raw audio held by threads that are neither recording nor transcribing,
    /// so it can be deleted without disturbing work in progress.
    pub reclaimable_bytes: u64,
    pub thread_count: u64,
}

/// A thread mid-recording or mid-transcription still needs its audio, and
/// unreadable metadata counts as busy so a torn write never costs audio.
pub open spec fn reclaimable(status: Option<ThreadStatus>) -> bool {
    status == Some(ThreadStatus::Idle)
}

/// Whether a thread's raw audio can be deleted.
pub fn is_reclaimable(status: Option<ThreadStatus>) -> (r: bool)
    ensures
        r == reclaimable(status),
{
    match status {
        Some(s) => !s.is_busy(),
        None => false,
    }
}

pub open spec fn total_of(s: Seq<ThreadFootprint>) -> nat
    decreases s.len(),
{
    if s.len() == 0 {
        0
    } else {
        total_of(s.drop_last()) + s.last().total_bytes as nat
    }
}

pub open spec fn raw_of(s: Seq<ThreadFootprint>) -> nat
    decreases s.len(),
{
    if s.len() == 0 {
        0
    } else {
        raw_of(s.drop_last()) + s.last().raw_audio_bytes as nat
    }
}

pub open spec fn reclaimable_of(s: Seq<ThreadFootprint>) -> nat
    decreases s.len(),
{
    if s.len() == 0 {
        0
    } else {
        reclaimable_of(s.drop_last()) + if reclaimable(s.last().status) {
            s.last().raw_audio_bytes as nat
        } else {
            0
        }
    }
}

/// Reclaiming never counts more than the raw audio there is.
pub proof fn reclaimable_audio_is_part_of_the_raw_audio(s: Seq<ThreadFootprint>)
    ensures
        reclaimable_of(s) <= raw_of(s),
    decreases s.len(),
{
    if s.len() > 0 {
        reclaimable_audio_is_part_of_the_raw_audio(s.drop_last());
    }
}

proof fn lemma_sums_monotone(s: Seq<ThreadFootprint>, i: int)
    requires
        0 <= i <= s.len(),
    ensures
        total_of(s.take(i)) <= total_of(s),
        raw_of(s.take(i)) <= raw_of(s),
    decreases s.len() - i,
{
    if i < s.len() {
        lemma_sums_monotone(s, i + 1);
        assert(s.take(i + 1).drop_last() =~= s.take(i));
    } else {
        assert(s.take(i) =~= s);
    }
}

/// Adds up the footprints of the thread folders.
pub fn usage(threads: &Vec<ThreadFootprint>) -> (r: StorageUsage)
    requires
        total_of(threads@) <= u64::MAX,
        raw_of(threads@) <= u64::MAX,
    ensures
        r.thread_count == threads@.len(),
        r.total_bytes == total_of(threads@),
        r.raw_audio_bytes == raw_of(threads@),
        r.reclaimable_bytes == reclaimable_of(threads@),
{
    let mut u = StorageUsage { total_bytes: 0, raw_audio_bytes: 0, reclaimable_bytes: 0, thread_count: 0 };
    let mut i: usize = 0;
    while i < threads.len()
        invariant
            i <= threads@.len(),
            total_of(threads@) <= u64::MAX,
            raw_of(threads@) <= u64::MAX,
            u.thread_count == i,
            u.total_bytes == total_of(threads@.take(i as int)),
            u.raw_audio_bytes == raw_of(threads@.take(i as int)),
            u.reclaimable_bytes == reclaimable_of(threads@.take(i as int)),
        decreases threads@.len() - i,
    {
        let t = threads[i];
        proof {
            assert(threads@.take(i + 1).drop_last() =~= threads@.take(i as int));
            lemma_sums_monotone(threads@, i + 1);
            reclaimable_audio_is_part_of_the_raw_audio(threads@.take(i + 1));
        }
        u.thread_count = u.thread_count + 1;
        u.total_bytes = u.total_bytes + t.total_bytes;
        u.raw_audio_bytes = u.raw_audio_bytes + t.raw_audio_bytes;
        if is_reclaimable(t.status) {
            u.reclaimable_bytes = u.reclaimable_bytes + t.raw_audio_bytes;
        }
        i = i + 1;
    }
    proof {
        assert(threads@.take(i as int) =~= threads@);
    }
    u
}

/// The indices of the threads whose raw audio can be deleted, in order.
pub open spec fn reclaim_targets(s: Seq<ThreadFootprint>) -> Seq<usize>
    decreases s.len(),
{
    if s.len() == 0 {
        Seq::empty()
    } else {
        let rest = reclaim_targets(s.drop_last());
        if reclaimable(s.last().status) {
            rest.push((s.len() - 1) as usize)
        } else {
            rest
        }
    }
}

/// Which threads' raw audio is deleted, in order, and how many bytes that
/// frees: every idle thread's, and none of a busy or unreadable one.
pub fn delete_reclaimable_raw_audio(threads: &Vec<ThreadFootprint>) -> (r: (Vec<usize>, u64))
    requires
        reclaimable_of(threads@) <= u64::MAX,
    ensures
        r.0@ == reclaim_targets(threads@),
        r.1 == reclaimable_of(threads@),
{
    let mut targets: Vec<usize> = Vec::new();
    let mut freed: u64 = 0;
    let mut i: usize = 0;
    while i < threads.len()
        invariant
            i <= threads@.len(),
            reclaimable_of(threads@) <= u64::MAX,
            targets@ == reclaim_targets(threads@.take(i as int)),
            freed == reclaimable_of(threads@.take(i as int)),
        decreases threads@.len() - i,
    {
        let t = threads[i];
        proof {
            assert(threads@.take(i + 1).drop_last() =~= threads@.take(i as int));
            assert(threads@.take(i + 1).last() == t);
            lemma_reclaimable_prefix(threads@, i + 1);
        }
        if is_reclaimable(t.status) {
            targets.push(i);
            freed = freed + t.raw_audio_bytes;
        }
        i = i + 1;
    }
    proof {
        assert(threads@.take(i as int) =~= threads@);
    }
    (targets, freed)
}

proof fn lemma_reclaimable_prefix(s: Seq<ThreadFootprint>, i: int)
    requires
        0 <= i <= s.len(),
    ensures
        reclaimable_of(s.take(i)) <= reclaimable_of(s),
    decreases s.len() - i,
{
    if i < s.len() {
        lemma_reclaimable_prefix(s, i + 1);
        assert(s.take(i + 1).drop_last() =~= s.take(i));
    } else {
        assert(s.take(i) =~= s);
    }
}

/// Reclaiming deletes a thread's raw audio exactly when that thread is
/// reclaimable: every idle thread loses its audio, and a thread that is
/// recording, transcribing or has unreadable metadata keeps it.
pub proof fn raw_audio_is_deleted_exactly_for_reclaimable_threads(s: Seq<ThreadFootprint>)
    requires
        s.len() <= usize::MAX,
    ensures
        forall|k: int| 0 <= k < reclaim_targets(s).len() ==> reclaim_targets(s)[k] < s.len(),
        forall|i: int|
            0 <= i < s.len() ==> (reclaim_targets(s).contains(i as usize) <==> reclaimable(
                #[trigger] s[i].status,
            )),
    decreases s.len(),
{
    if s.len() > 0 {
        let rest = s.drop_last();
        raw_audio_is_deleted_exactly_for_reclaimable_threads(rest);
        let last = (s.len() - 1) as usize;
        assert forall|i: int| 0 <= i < s.len() implies (reclaim_targets(s).contains(i as usize)
            <==> reclaimable(#[trigger] s[i].status)) by {
            if i < s.len() - 1 {
                assert(rest[i] == s[i]);
                if reclaimable(s.last().status) {
                    assert(reclaim_targets(s) == reclaim_targets(rest).push(last));
                    if reclaim_targets(s).contains(i as usize) {
                        let k = choose|k: int|
                            0 <= k < reclaim_targets(s).len() && reclaim_targets(s)[k] == i as usize;
                        if k < reclaim_targets(rest).len() {
                            assert(reclaim_targets(rest)[k] == i as usize);
                        }
                    }
                    if reclaim_targets(rest).contains(i as usize) {
                        let k = choose|k: int|
                            0 <= k < reclaim_targets(rest).len() && reclaim_targets(rest)[k] == i as usize;
                        assert(reclaim_targets(s)[k] == i as usize);
                    }
                }
            } else {
                if reclaimable(s.last().status) {
                    let n = reclaim_targets(rest).len() as int;
                    assert(reclaim_targets(s)[n] == last);
                } else {
                    if reclaim_targets(s).contains(i as usize) {
                        let k = choose|k: int|
                            0 <= k < reclaim_targets(s).len() && reclaim_targets(s)[k] == i as usize;
                        assert(reclaim_targets(rest)[k] < rest.len());
                    }
                }
            }
        }
    }
}

} // verus!
