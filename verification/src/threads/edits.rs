//! Editing and finding threads: renaming, the checks before a thread is
//! edited or archived, text search, and the order threads are listed in.

use vstd::prelude::*;

use super::model::{ThreadMetadata, ThreadStatus, ThreadSummary};
use super::title::{validated_title, validated_title_spec};
use crate::sorting::{lemma_insert_sorted_at, lemma_stable_sorted_in_order, orders, stable_sorted};
use crate::text::{chars_of, owned, trim, trimmed};

verus! {

/// A thread being recorded or transcribed cannot be edited.
pub fn ensure_thread_not_busy(status: ThreadStatus) -> (r: Result<(), String>)
    ensures
        status == ThreadStatus::Idle ==> r is Ok,
        status != ThreadStatus::Idle ==> (r matches Err(e) && e@
            == "Wait for recording or transcription to finish before editing this thread"@),
{
    if status.is_busy() {
        return Err(owned("Wait for recording or transcription to finish before editing this thread"));
    }
    Ok(())
}

/// A thread being recorded or transcribed cannot be archived.
pub fn ensure_archivable(status: ThreadStatus) -> (r: Result<(), String>)
    ensures
        status == ThreadStatus::Idle ==> r is Ok,
        status != ThreadStatus::Idle ==> (r matches Err(e) && e@
            == "Stop the active recording or transcription before archiving this thread"@),
{
    if status.is_busy() {
        return Err(owned("Stop the active recording or transcription before archiving this thread"));
    }
    Ok(())
}

/// Renames a thread: the title is validated first, then the thread must be
/// idle; the activity time is kept.
pub fn rename_thread(metadata: &mut ThreadMetadata, title: &str) -> (r: Result<(), String>)
    ensures
        match validated_title_spec(title@) {
            Err(m) => (r matches Err(e) && e@ == m) && *final(metadata) == *old(metadata),
            Ok(t) => if old(metadata).status != ThreadStatus::Idle {
                (r matches Err(e) && e@
                    == "Wait for recording or transcription to finish before editing this thread"@)
                    && *final(metadata) == *old(metadata)
            } else {
                r is Ok && final(metadata).title@ == t && final(metadata).id == old(metadata).id
                    && final(metadata).created_at_ms == old(metadata).created_at_ms
                    && final(metadata).updated_at_ms == old(metadata).updated_at_ms
                    && final(metadata).status == old(metadata).status
                    && final(metadata).retrieval_readiness == old(metadata).retrieval_readiness
                    && final(metadata).duration_ms == old(metadata).duration_ms
                    && final(metadata).calendar == old(metadata).calendar
            },
        },
{
    let title = match validated_title(title) {
        Ok(t) => owned(t),
        Err(e) => {
            return Err(e);
        },
    };
    ensure_thread_not_busy(metadata.status)?;
    metadata.title = title;
    Ok(())
}

/// What `str::to_lowercase` makes of `s` (Unicode lowercase mapping).
pub uninterp spec fn lowercase(s: Seq<char>) -> Seq<char>;

/// Calls `str::to_lowercase`. Trusted: the result is `lowercase` of `s`, i.e.
/// it depends on `s` alone; the Unicode lowercase mapping itself is not
/// stated.
#[verifier::external_body]
fn to_lowercase(s: &str) -> (r: String)
    ensures
        r@ == lowercase(s@),
{
    s.to_lowercase()
}

/// `needle` occurs in `haystack` as a run of consecutive characters.
pub open spec fn occurs_in(needle: Seq<char>, haystack: Seq<char>) -> bool {
    exists|i: int| 0 <= i <= haystack.len() - needle.len() && #[trigger] haystack.subrange(i, i + needle.len()) == needle
}

fn occurs_at(needle: &Vec<char>, haystack: &Vec<char>, at: usize) -> (r: bool)
    requires
        at + needle@.len() <= haystack@.len(),
    ensures
        r == (haystack@.subrange(at as int, at + needle@.len()) == needle@),
{
    let hlen = haystack.len();
    let mut j: usize = 0;
    while j < needle.len()
        invariant
            j <= needle@.len(),
            hlen == haystack@.len(),
            at + needle@.len() <= hlen,
            forall|k: int| 0 <= k < j ==> haystack@[at + k] == needle@[k],
        decreases needle@.len() - j,
    {
        if haystack[at + j] != needle[j] {
            proof {
                assert(haystack@.subrange(at as int, at + needle@.len())[j as int] != needle@[j as int]);
            }
            return false;
        }
        j = j + 1;
    }
    proof {
        assert(haystack@.subrange(at as int, at + needle@.len()) =~= needle@);
    }
    true
}

/// Whether `needle` occurs in `haystack` (`str::contains`).
pub fn text_contains(haystack: &str, needle: &str) -> (r: bool)
    ensures
        r == occurs_in(needle@, haystack@),
{
    let h = chars_of(haystack);
    let n = chars_of(needle);
    if n.len() > h.len() {
        return false;
    }
    if n.len() == 0 {
        proof {
            assert(haystack@.subrange(0, 0 + needle@.len() as int) =~= needle@);
        }
        return true;
    }
    let last = h.len() - n.len();
    let mut i: usize = 0;
    while i <= last
        invariant
            i <= last + 1,
            last + 1 <= usize::MAX,
            last == h@.len() - n@.len(),
            1 <= n@.len() <= h@.len(),
            h@ == haystack@,
            n@ == needle@,
            forall|k: int| 0 <= k < i ==> #[trigger] h@.subrange(k, k + n@.len()) != n@,
        decreases last + 1 - i,
    {
        if occurs_at(&n, &h, i) {
            return true;
        }
        i = i + 1;
    }
    false
}

/// Whether a thread matches a (lowercased, trimmed, non-empty) query: its
/// title, or one of its transcript's segments, contains it, ignoring case.
pub open spec fn matches_query(title: Seq<char>, texts: Option<Seq<Seq<char>>>, query: Seq<char>) -> bool {
    ||| occurs_in(query, lowercase(title))
    ||| (texts matches Some(t) && exists|i: int| 0 <= i < t.len() && occurs_in(query, lowercase(#[trigger] t[i])))
}

fn any_text_contains(texts: &Vec<String>, query: &str) -> (r: bool)
    ensures
        r == exists|i: int| 0 <= i < texts@.len() && occurs_in(query@, lowercase(#[trigger] texts@[i]@)),
{
    let mut i: usize = 0;
    while i < texts.len()
        invariant
            i <= texts@.len(),
            forall|k: int| 0 <= k < i ==> !occurs_in(query@, lowercase(#[trigger] texts@[k]@)),
        decreases texts@.len() - i,
    {
        let lower = to_lowercase(texts[i].as_str());
        if text_contains(lower.as_str(), query) {
            return true;
        }
        i = i + 1;
    }
    false
}

/// The threads among `threads` (with their transcripts' segment texts,
/// `None` where unreadable) that match the lowercased query `q`, in order.
pub open spec fn matching_threads(
    threads: Seq<ThreadSummary>,
    texts: Seq<Option<Seq<Seq<char>>>>,
    q: Seq<char>,
) -> Seq<ThreadSummary>
    decreases threads.len(),
{
    if threads.len() == 0 || texts.len() == 0 {
        Seq::empty()
    } else {
        let rest = matching_threads(threads.drop_last(), texts.drop_last(), q);
        if matches_query(threads.last().title@, texts.last(), q) {
            rest.push(threads.last())
        } else {
            rest
        }
    }
}

pub open spec fn texts_views(texts: Seq<Option<Vec<String>>>) -> Seq<Option<Seq<Seq<char>>>> {
    texts.map_values(
        |t: Option<Vec<String>>|
            match t {
                Some(v) => Some(v.deep_view()),
                None => None,
            },
    )
}

/// The threads matching `query`, in listing order: every thread for a blank
/// query, else those whose title or transcript contains the trimmed query,
/// ignoring case. `transcripts[i]` holds the segment texts of `threads[i]`,
/// `None` when its transcript could not be read.
pub fn search_threads(
    threads: Vec<ThreadSummary>,
    query: &str,
    transcripts: &Vec<Option<Vec<String>>>,
) -> (r: Vec<ThreadSummary>)
    requires
        transcripts@.len() == threads@.len(),
    ensures
        trim(query@).len() == 0 ==> r@ == threads@,
        trim(query@).len() > 0 ==> r@ == matching_threads(
            threads@,
            texts_views(transcripts@),
            lowercase(trim(query@)),
        ),
{
    let t = trimmed(query);
    if chars_of(t.as_str()).len() == 0 {
        return threads;
    }
    let q = to_lowercase(t.as_str());
    let ghost all = threads@;
    let ghost tv = texts_views(transcripts@);
    let n = threads.len();
    let mut rest = threads;
    let mut kept: Vec<ThreadSummary> = Vec::new();
    let mut i: usize = 0;
    proof {
        assert(all.skip(0) =~= all);
    }
    while i < n
        invariant
            i <= n,
            n == all.len(),
            transcripts@.len() == n,
            tv == texts_views(transcripts@),
            rest@ == all.skip(i as int),
            kept@ == matching_threads(all.take(i as int), tv.take(i as int), q@),
        decreases n - i,
    {
        let x = rest.remove(0);
        proof {
            assert(x == all[i as int]);
            assert(rest@ =~= all.skip(i + 1));
            assert(all.take(i + 1).drop_last() =~= all.take(i as int));
            assert(tv.take(i + 1).drop_last() =~= tv.take(i as int));
        }
        let lower_title = to_lowercase(x.title.as_str());
        let hit = text_contains(lower_title.as_str(), q.as_str()) || match &transcripts[i] {
            Some(texts) => any_text_contains(texts, q.as_str()),
            None => false,
        };
        proof {
            assert(tv.take(i + 1).last() == tv[i as int]);
            match transcripts@[i as int] {
                Some(v) => {
                    assert(tv[i as int] == Some(v.deep_view()));
                    if exists|k: int|
                        0 <= k < v@.len() && occurs_in(q@, lowercase(#[trigger] v@[k]@)) {
                        let k = choose|k: int|
                            0 <= k < v@.len() && occurs_in(q@, lowercase(#[trigger] v@[k]@));
                        assert(v.deep_view()[k] == v@[k]@);
                    }
                    if exists|k: int|
                        0 <= k < v.deep_view().len() && occurs_in(
                            q@,
                            lowercase(#[trigger] v.deep_view()[k]),
                        ) {
                        let k = choose|k: int|
                            0 <= k < v.deep_view().len() && occurs_in(
                                q@,
                                lowercase(#[trigger] v.deep_view()[k]),
                            );
                        assert(v.deep_view()[k] == v@[k]@);
                    }
                },
                None => {},
            }
            assert(hit == matches_query(x.title@, tv[i as int], q@));
        }
        if hit {
            kept.push(x);
        }
        i = i + 1;
    }
    proof {
        assert(all.take(n as int) =~= all);
        assert(tv.take(n as int) =~= tv);
    }
    kept
}

/// Thread `a` is listed after thread `b`: it was active earlier, or as
/// recently and created earlier.
pub open spec fn listed_after(a: ThreadSummary, b: ThreadSummary) -> bool {
    ||| a.updated_at_ms < b.updated_at_ms
    ||| a.updated_at_ms == b.updated_at_ms && a.created_at_ms < b.created_at_ms
}

/// The "listed after" relation of the thread list.
pub open spec fn listing_order() -> spec_fn(ThreadSummary, ThreadSummary) -> bool {
    |a: ThreadSummary, b: ThreadSummary| listed_after(a, b)
}

/// Orders threads for listing: most recently active first, then most
/// recently created; ties keep their order.
pub fn sort_thread_summaries(threads: Vec<ThreadSummary>) -> (r: Vec<ThreadSummary>)
    ensures
        r@ == stable_sorted(threads@, listing_order()),
{
    let ghost after = listing_order();
    let ghost input = threads@;
    let mut sorted: Vec<ThreadSummary> = Vec::new();
    let mut rest = threads;
    proof {
        assert(sorted@ =~= stable_sorted(input.take(0), after));
    }
    let n = rest.len();
    let mut i: usize = 0;
    while i < n
        invariant
            n == input.len(),
            i <= n,
            rest@ == input.skip(i as int),
            sorted@ == stable_sorted(input.take(i as int), after),
            after == listing_order(),
        decreases n - i,
    {
        let x = rest.remove(0);
        proof {
            assert(x == input[i as int]);
            assert(rest@ =~= input.skip(i + 1));
            assert(input.take(i + 1).drop_last() =~= input.take(i as int));
        }
        let mut p = sorted.len();
        while p > 0 && (sorted[p - 1].updated_at_ms < x.updated_at_ms || (sorted[p - 1].updated_at_ms
            == x.updated_at_ms && sorted[p - 1].created_at_ms < x.created_at_ms))
            invariant
                after == listing_order(),
                p <= sorted@.len(),
                forall|k: int| p <= k < sorted@.len() ==> after(#[trigger] sorted@[k], x),
            decreases p,
        {
            p = p - 1;
        }
        proof {
            lemma_insert_sorted_at(sorted@, x, p as int, after);
        }
        sorted.insert(p, x);
        i = i + 1;
    }
    proof {
        assert(input.take(n as int) =~= input);
    }
    sorted
}

/// Threads are listed most recently active first (then most recently
/// created first), and the listing holds exactly the threads found.
pub proof fn threads_are_listed_by_activity(threads: Seq<ThreadSummary>)
    ensures
        forall|i: int, j: int|
            0 <= i < j < stable_sorted(threads, listing_order()).len() ==> !listed_after(
                #[trigger] stable_sorted(threads, listing_order())[i],
                #[trigger] stable_sorted(threads, listing_order())[j],
            ),
        forall|i: int, j: int|
            0 <= i < j < stable_sorted(threads, listing_order()).len() ==> {
                let a = #[trigger] stable_sorted(threads, listing_order())[i];
                let b = #[trigger] stable_sorted(threads, listing_order())[j];
                a.updated_at_ms > b.updated_at_ms || (a.updated_at_ms == b.updated_at_ms
                    && a.created_at_ms >= b.created_at_ms)
            },
        stable_sorted(threads, listing_order()).to_multiset() == threads.to_multiset(),
{
    assert(orders(listing_order()));
    lemma_stable_sorted_in_order(threads, listing_order());
    let r = stable_sorted(threads, listing_order());
    assert forall|i: int, j: int| 0 <= i < j < r.len() implies !listed_after(
        #[trigger] r[i],
        #[trigger] r[j],
    ) by {
        assert(!listing_order()(r[i], r[j]));
    }
}

/// A search keeps exactly the threads whose title, or some segment of whose
/// transcript (at any position), contains the query once lowercased; a thread
/// whose transcript could not be read is found by its title alone.
pub proof fn search_finds_title_and_segment_matches(
    threads: Seq<ThreadSummary>,
    texts: Seq<Option<Seq<Seq<char>>>>,
    q: Seq<char>,
)
    requires
        texts.len() == threads.len(),
    ensures
        forall|j: int|
            0 <= j < threads.len() && occurs_in(q, lowercase(#[trigger] threads[j].title@))
                ==> matching_threads(threads, texts, q).contains(threads[j]),
        forall|j: int, k: int|
            0 <= j < threads.len() && texts[j] is Some && 0 <= k < texts[j]->0.len() && occurs_in(
                q,
                lowercase(#[trigger] texts[j]->0[k]),
            ) ==> matching_threads(threads, texts, q).contains(threads[j]),
        forall|x: ThreadSummary|
            #[trigger] matching_threads(threads, texts, q).contains(x) ==> exists|j: int|
                0 <= j < threads.len() && threads[j] == x && (occurs_in(q, lowercase(x.title@)) || (
                texts[j] is Some && exists|k: int|
                    0 <= k < texts[j]->0.len() && occurs_in(q, lowercase(#[trigger] texts[j]->0[k])))),
    decreases threads.len(),
{
    if threads.len() > 0 {
        let pre = threads.drop_last();
        let tpre = texts.drop_last();
        search_finds_title_and_segment_matches(pre, tpre, q);
        let rest = matching_threads(pre, tpre, q);
        let r = matching_threads(threads, texts, q);
        let n = threads.len() - 1;
        assert(r == rest || r == rest.push(threads[n]));
        assert forall|y: ThreadSummary| rest.contains(y) implies r.contains(y) by {
            if r != rest {
                let i = choose|i: int| 0 <= i < rest.len() && rest[i] == y;
                assert(r[i] == y);
            }
        }
        assert forall|j: int|
            0 <= j < threads.len() && occurs_in(q, lowercase(#[trigger] threads[j].title@))
            implies r.contains(threads[j]) by {
            if j < n {
                assert(pre[j] == threads[j]);
                assert(rest.contains(pre[j]));
            } else {
                assert(r == rest.push(threads[n]));
                assert(r[rest.len() as int] == threads[n]);
            }
        }
        assert forall|j: int, k: int|
            0 <= j < threads.len() && texts[j] is Some && 0 <= k < texts[j]->0.len() && occurs_in(
                q,
                lowercase(#[trigger] texts[j]->0[k]),
            ) implies r.contains(threads[j]) by {
            if j < n {
                assert(pre[j] == threads[j]);
                assert(tpre[j] == texts[j]);
                assert(occurs_in(q, lowercase(tpre[j]->0[k])));
                assert(rest.contains(pre[j]));
            } else {
                assert(matches_query(threads.last().title@, texts.last(), q));
                assert(r == rest.push(threads[n]));
                assert(r[rest.len() as int] == threads[n]);
            }
        }
        assert forall|x: ThreadSummary| #[trigger] r.contains(x) implies exists|j: int|
            0 <= j < threads.len() && threads[j] == x && (occurs_in(q, lowercase(x.title@)) || (
            texts[j] is Some && exists|k: int|
                0 <= k < texts[j]->0.len() && occurs_in(q, lowercase(#[trigger] texts[j]->0[k])))) by {
            let i = choose|i: int| 0 <= i < r.len() && r[i] == x;
            if i < rest.len() {
                assert(rest[i] == x);
                assert(rest.contains(x));
                let j = choose|j: int|
                    0 <= j < pre.len() && pre[j] == x && (occurs_in(q, lowercase(x.title@)) || (
                    tpre[j] is Some && exists|k: int|
                        0 <= k < tpre[j]->0.len() && occurs_in(q, lowercase(#[trigger] tpre[j]->0[k]))));
                assert(threads[j] == x);
                assert(texts[j] == tpre[j]);
            } else {
                assert(r == rest.push(threads[n]));
                assert(x == threads[n]);
                assert(matches_query(threads.last().title@, texts.last(), q));
                assert(texts.last() == texts[n]);
            }
        }
    }
}

} // verus!
