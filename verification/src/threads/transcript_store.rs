//! Transcript previews.

use vstd::prelude::*;

use super::model::TranscriptSegment;
use crate::sorting::{lemma_insert_sorted_at, lemma_stable_sorted_in_order, orders, stable_sorted};
use crate::text::{
    chars_of, compare_chars, lemma_seq_lt_irreflexive, lemma_seq_lt_total, lemma_seq_lt_trans,
    push_char, seq_lt, string_from_chars, trim, trimmed, Order,
};

verus! {

/// The longest preview of a transcript, in characters.
pub const SNIPPET_MAX_CHARS: usize = 120;

/// A preview of `text`: up to 120 characters, with an ellipsis when cut.
pub open spec fn snippet_spec(text: Seq<char>) -> Seq<char> {
    if text.len() <= 120 {
        text
    } else {
        text.take(120).push('…')
    }
}

/// A preview of `text`.
pub fn make_snippet(text: &str) -> (r: String)
    ensures
        r@ == snippet_spec(text@),
{
    let chars = chars_of(text);
    if chars.len() <= SNIPPET_MAX_CHARS {
        string_from_chars(&chars, 0, chars.len())
    } else {
        let mut r = string_from_chars(&chars, 0, SNIPPET_MAX_CHARS);
        push_char(&mut r, '…');
        proof {
            assert(chars@.subrange(0, 120) =~= text@.take(120));
        }
        r
    }
}

/// The inside of `text` when it starts with `open` and ends with `close`.
pub open spec fn wrapped_inner(text: Seq<char>, open: char, close: char) -> Option<Seq<char>> {
    if text.len() >= 2 && text[0] == open && text.last() == close {
        Some(text.subrange(1, text.len() - 1))
    } else {
        None
    }
}

/// The inside of `text` when wrapped in `open` and `close`.
pub fn trim_wrapped(text: &str, open: char, close: char) -> (r: Option<String>)
    ensures
        match wrapped_inner(text@, open, close) {
            Some(inner) => r matches Some(x) && x@ == inner,
            None => r is None,
        },
{
    let chars = chars_of(text);
    if chars.len() >= 2 && chars[0] == open && chars[chars.len() - 1] == close {
        Some(string_from_chars(&chars, 1, chars.len() - 1))
    } else {
        None
    }
}

pub open spec fn has_bracket(s: Seq<char>) -> bool {
    exists|i: int| 0 <= i < s.len() && (s[i] == '(' || s[i] == ')' || s[i] == '[' || s[i] == ']')
}

/// Non-speech sounds are rendered as a bracketed annotation like
/// "(birds chirping)" or "[music]"; spoken text makes a better preview.
pub open spec fn annotation_spec(text: Seq<char>) -> bool {
    let inner = if wrapped_inner(text, '(', ')') is Some {
        wrapped_inner(text, '(', ')')
    } else {
        wrapped_inner(text, '[', ']')
    };
    match inner {
        Some(i) => !has_bracket(i),
        None => false,
    }
}

fn contains_bracket(s: &Vec<char>) -> (r: bool)
    ensures
        r == has_bracket(s@),
{
    let mut i: usize = 0;
    while i < s.len()
        invariant
            i <= s@.len(),
            forall|j: int|
                0 <= j < i ==> !(s@[j] == '(' || s@[j] == ')' || s@[j] == '[' || s@[j] == ']'),
        decreases s@.len() - i,
    {
        let c = s[i];
        if c == '(' || c == ')' || c == '[' || c == ']' {
            return true;
        }
        i = i + 1;
    }
    false
}

/// Whether `text` is a non-speech annotation.
pub fn is_non_speech_annotation(text: &str) -> (r: bool)
    ensures
        r == annotation_spec(text@),
{
    let inner = match trim_wrapped(text, '(', ')') {
        Some(inner) => Some(inner),
        None => trim_wrapped(text, '[', ']'),
    };
    match inner {
        Some(inner) => {
            let chars = chars_of(inner.as_str());
            !contains_bracket(&chars)
        },
        None => false,
    }
}

/// The preview of a transcript whose segment texts are `texts`, in file
/// order: the first spoken segment, else the first annotation, else nothing.
pub open spec fn first_snippet_scan(texts: Seq<Seq<char>>, fallback: Option<Seq<char>>) -> Option<
    Seq<char>,
>
    decreases texts.len(),
{
    if texts.len() == 0 {
        fallback
    } else {
        let t = trim(texts[0]);
        if t.len() == 0 {
            first_snippet_scan(texts.drop_first(), fallback)
        } else if annotation_spec(t) {
            first_snippet_scan(
                texts.drop_first(),
                if fallback is Some {
                    fallback
                } else {
                    Some(snippet_spec(t))
                },
            )
        } else {
            Some(snippet_spec(t))
        }
    }
}

/// A segment text that, once trimmed, holds something other than a
/// bracketed non-speech annotation.
pub open spec fn is_spoken(text: Seq<char>) -> bool {
    trim(text).len() > 0 && !annotation_spec(trim(text))
}

proof fn lemma_scan_reaches_spoken(texts: Seq<Seq<char>>, fallback: Option<Seq<char>>, j: int)
    requires
        0 <= j < texts.len(),
        is_spoken(texts[j]),
        forall|i: int| 0 <= i < j ==> !is_spoken(#[trigger] texts[i]),
    ensures
        first_snippet_scan(texts, fallback) == Some(snippet_spec(trim(texts[j]))),
    decreases j,
{
    if j > 0 {
        let t = trim(texts[0]);
        assert(!is_spoken(texts[0]));
        let next = if t.len() == 0 {
            fallback
        } else if fallback is Some {
            fallback
        } else {
            Some(snippet_spec(t))
        };
        assert forall|i: int| 0 <= i < j - 1 implies !is_spoken(#[trigger] texts.drop_first()[i]) by {
            assert(texts.drop_first()[i] == texts[i + 1]);
        }
        lemma_scan_reaches_spoken(texts.drop_first(), next, j - 1);
    }
}

proof fn lemma_scan_keeps_fallback(texts: Seq<Seq<char>>, fallback: Option<Seq<char>>)
    requires
        fallback is Some,
        forall|i: int| 0 <= i < texts.len() ==> !is_spoken(#[trigger] texts[i]),
    ensures
        first_snippet_scan(texts, fallback) == fallback,
    decreases texts.len(),
{
    if texts.len() > 0 {
        assert(!is_spoken(texts[0]));
        assert forall|i: int| 0 <= i < texts.len() - 1 implies !is_spoken(
            #[trigger] texts.drop_first()[i],
        ) by {
            assert(texts.drop_first()[i] == texts[i + 1]);
        }
        lemma_scan_keeps_fallback(texts.drop_first(), fallback);
    }
}

/// The preview comes from the first spoken segment: bracketed non-speech
/// annotations and blank segments before it are passed over.
pub proof fn snippet_comes_from_the_first_spoken_segment(texts: Seq<Seq<char>>, j: int)
    requires
        0 <= j < texts.len(),
        is_spoken(texts[j]),
        forall|i: int| 0 <= i < j ==> !is_spoken(#[trigger] texts[i]),
    ensures
        first_snippet_scan(texts, None) == Some(snippet_spec(trim(texts[j]))),
{
    lemma_scan_reaches_spoken(texts, None, j);
}

/// With no spoken segment, the preview is the first non-blank annotation.
pub proof fn snippet_falls_back_to_the_first_annotation(texts: Seq<Seq<char>>, j: int)
    requires
        0 <= j < texts.len(),
        trim(texts[j]).len() > 0,
        forall|i: int| 0 <= i < j ==> trim(#[trigger] texts[i]).len() == 0,
        forall|i: int| 0 <= i < texts.len() ==> !is_spoken(#[trigger] texts[i]),
    ensures
        first_snippet_scan(texts, None) == Some(snippet_spec(trim(texts[j]))),
    decreases j,
{
    assert(!is_spoken(texts[0]));
    assert forall|i: int| 0 <= i < texts.len() - 1 implies !is_spoken(
        #[trigger] texts.drop_first()[i],
    ) by {
        assert(texts.drop_first()[i] == texts[i + 1]);
    }
    if j == 0 {
        lemma_scan_keeps_fallback(texts.drop_first(), Some(snippet_spec(trim(texts[0]))));
    } else {
        assert(trim(texts[0]).len() == 0);
        assert forall|i: int| 0 <= i < j - 1 implies trim(#[trigger] texts.drop_first()[i]).len()
            == 0 by {
            assert(texts.drop_first()[i] == texts[i + 1]);
        }
        snippet_falls_back_to_the_first_annotation(texts.drop_first(), j - 1);
    }
}

/// A transcript whose segments are all blank has no preview.
pub proof fn blank_transcripts_have_no_snippet(texts: Seq<Seq<char>>)
    requires
        forall|i: int| 0 <= i < texts.len() ==> trim(#[trigger] texts[i]).len() == 0,
    ensures
        first_snippet_scan(texts, None) is None,
    decreases texts.len(),
{
    if texts.len() > 0 {
        assert(trim(texts[0]).len() == 0);
        assert forall|i: int| 0 <= i < texts.len() - 1 implies trim(
            #[trigger] texts.drop_first()[i],
        ).len() == 0 by {
            assert(texts.drop_first()[i] == texts[i + 1]);
        }
        blank_transcripts_have_no_snippet(texts.drop_first());
    }
}

/// The preview of a transcript from its segment texts, in file order.
pub fn first_segment_snippet(texts: &Vec<String>) -> (r: Option<String>)
    ensures
        match first_snippet_scan(texts.deep_view(), None) {
            Some(s) => r matches Some(x) && x@ == s,
            None => r is None,
        },
{
    let ghost all = texts.deep_view();
    let mut fallback: Option<String> = None;
    let mut i: usize = 0;
    proof {
        assert(all.skip(0) =~= all);
    }
    while i < texts.len()
        invariant
            all == texts.deep_view(),
            i <= all.len(),
            first_snippet_scan(all, None) == first_snippet_scan(
                all.skip(i as int),
                match fallback {
                    Some(f) => Some(f@),
                    None => None,
                },
            ),
        decreases all.len() - i,
    {
        proof {
            assert(all.skip(i as int)[0] == texts@[i as int]@);
            assert(all.skip(i as int).drop_first() =~= all.skip(i + 1));
        }
        let t = trimmed(texts[i].as_str());
        if !t.as_str().is_empty() {
            if is_non_speech_annotation(t.as_str()) {
                if fallback.is_none() {
                    fallback = Some(make_snippet(t.as_str()));
                }
            } else {
                return Some(make_snippet(t.as_str()));
            }
        }
        i = i + 1;
    }
    proof {
        assert(all.skip(i as int) =~= Seq::<Seq<char>>::empty());
    }
    fallback
}

/// Segment `a` goes after segment `b`: it starts later, or at the same time
/// from a source that sorts later.
pub open spec fn segment_after(a: TranscriptSegment, b: TranscriptSegment) -> bool {
    ||| a.start_ms > b.start_ms
    ||| a.start_ms == b.start_ms && seq_lt(b.source@, a.source@)
}

/// The "goes after" relation of a transcript's segments.
pub open spec fn segment_order() -> spec_fn(TranscriptSegment, TranscriptSegment) -> bool {
    |a: TranscriptSegment, b: TranscriptSegment| segment_after(a, b)
}

fn goes_after(a: &TranscriptSegment, b: &TranscriptSegment) -> (r: bool)
    ensures
        r == segment_after(*a, *b),
{
    if a.start_ms != b.start_ms {
        return a.start_ms > b.start_ms;
    }
    let x = chars_of(a.source.as_str());
    let y = chars_of(b.source.as_str());
    match compare_chars(&x, &y) {
        Order::Greater => true,
        _ => false,
    }
}

/// Orders a transcript's segments by start time, then by source; ties keep
/// the order they were read in.
pub fn sort_segments(segments: Vec<TranscriptSegment>) -> (r: Vec<TranscriptSegment>)
    ensures
        r@ == stable_sorted(segments@, segment_order()),
{
    let ghost after = segment_order();
    let ghost input = segments@;
    let mut sorted: Vec<TranscriptSegment> = Vec::new();
    let mut rest = segments;
    proof {
        assert(sorted@ =~= stable_sorted(input.take(0), after));
    }
    let n = rest.len();
    let mut i: usize = 0;
    while i < n
        invariant
            n == input.len(),
            i <= n,
            rest@ == input.skip(i as int),
            sorted@ == stable_sorted(input.take(i as int), after),
            after == segment_order(),
        decreases n - i,
    {
        let x = rest.remove(0);
        proof {
            assert(x == input[i as int]);
            assert(rest@ =~= input.skip(i + 1));
            assert(input.take(i + 1).drop_last() =~= input.take(i as int));
        }
        let mut p = sorted.len();
        while p > 0 && goes_after(&sorted[p - 1], &x)
            invariant
                after == segment_order(),
                p <= sorted@.len(),
                forall|k: int| p <= k < sorted@.len() ==> after(#[trigger] sorted@[k], x),
            decreases p,
        {
            p = p - 1;
        }
        proof {
            lemma_insert_sorted_at(sorted@, x, p as int, after);
        }
        sorted.insert(p, x);
        i = i + 1;
    }
    proof {
        assert(input.take(n as int) =~= input);
    }
    sorted
}

/// A transcript reads in time order: each segment starts no later than the
/// next, segments starting together come by source, and every segment read
/// is kept.
pub proof fn segments_read_in_time_order(segments: Seq<TranscriptSegment>)
    ensures
        forall|i: int, j: int|
            0 <= i < j < stable_sorted(segments, segment_order()).len() ==> !segment_after(
                #[trigger] stable_sorted(segments, segment_order())[i],
                #[trigger] stable_sorted(segments, segment_order())[j],
            ),
        forall|i: int, j: int|
            0 <= i < j < stable_sorted(segments, segment_order()).len() ==> {
                let a = #[trigger] stable_sorted(segments, segment_order())[i];
                let b = #[trigger] stable_sorted(segments, segment_order())[j];
                a.start_ms < b.start_ms || (a.start_ms == b.start_ms && !seq_lt(b.source@, a.source@))
            },
        stable_sorted(segments, segment_order()).to_multiset() == segments.to_multiset(),
{
    assert(orders(segment_order())) by {
        assert forall|a: TranscriptSegment, b: TranscriptSegment|
            #[trigger] segment_order()(a, b) implies !segment_order()(b, a) by {
            if seq_lt(b.source@, a.source@) && seq_lt(a.source@, b.source@) {
                lemma_seq_lt_trans(b.source@, a.source@, b.source@);
                lemma_seq_lt_irreflexive(b.source@);
            }
        }
        assert forall|a: TranscriptSegment, b: TranscriptSegment, c: TranscriptSegment|
            !(#[trigger] segment_order()(a, b)) && !(#[trigger] segment_order()(b, c)) implies !(
            #[trigger] segment_order()(a, c)) by {
            lemma_seq_lt_total(a.source@, b.source@);
            lemma_seq_lt_total(b.source@, c.source@);
            if seq_lt(c.source@, a.source@) && a.start_ms == c.start_ms && a.start_ms == b.start_ms {
                if seq_lt(a.source@, b.source@) {
                    if seq_lt(b.source@, c.source@) {
                        lemma_seq_lt_trans(a.source@, b.source@, c.source@);
                        lemma_seq_lt_trans(c.source@, a.source@, c.source@);
                        lemma_seq_lt_irreflexive(c.source@);
                    } else {
                        lemma_seq_lt_trans(c.source@, a.source@, b.source@);
                        lemma_seq_lt_irreflexive(b.source@);
                    }
                } else if seq_lt(b.source@, c.source@) {
                    lemma_seq_lt_trans(b.source@, c.source@, a.source@);
                    lemma_seq_lt_irreflexive(a.source@);
                } else {
                    lemma_seq_lt_irreflexive(a.source@);
                }
            }
        }
    }
    lemma_stable_sorted_in_order(segments, segment_order());
    let r = stable_sorted(segments, segment_order());
    assert forall|i: int, j: int| 0 <= i < j < r.len() implies !segment_after(
        #[trigger] r[i],
        #[trigger] r[j],
    ) by {
        assert(!segment_order()(r[i], r[j]));
    }
}

} // verus!
