//! The markdown copy of a thread's transcript.

use vstd::prelude::*;

use super::model::{ThreadMetadata, TranscriptSegment};
use crate::text::{decimal, owned, push_decimal};

verus! {

/// `n` with at least two digits.
pub open spec fn two_digits(n: nat) -> Seq<char> {
    if n < 10 {
        seq!['0'] + decimal(n)
    } else {
        decimal(n)
    }
}

/// A transcript time as `MM:SS` (minutes keep growing past 99).
pub open spec fn transcript_time(ms: u64) -> Seq<char> {
    two_digits(((ms / 1000) / 60) as nat) + ":"@ + two_digits(((ms / 1000) % 60) as nat)
}

/// A rendered time ends in the seconds within the minute, as two digits
/// after the colon: 65 000 ms ends in ":05", and the seconds never reach 60.
pub proof fn transcript_time_ends_with_the_seconds_of_the_minute(ms: u64)
    ensures
        transcript_time(ms).len() >= 5,
        transcript_time(ms)[transcript_time(ms).len() - 3] == ':',
        transcript_time(ms)[transcript_time(ms).len() - 2] == crate::text::digit_char(
            (((ms / 1000) % 60) / 10) as int,
        ),
        transcript_time(ms)[transcript_time(ms).len() - 1] == crate::text::digit_char(
            (((ms / 1000) % 60) % 10) as int,
        ),
        ((ms / 1000) % 60) / 10 < 6,
        (ms / 1000) / 60 < 100 ==> transcript_time(ms).len() == 5 && transcript_time(ms)[0]
            == crate::text::digit_char((((ms / 1000) / 60) / 10) as int) && transcript_time(ms)[1]
            == crate::text::digit_char((((ms / 1000) / 60) % 10) as int),
        (ms / 1000) / 60 >= 100 ==> transcript_time(ms).subrange(0, transcript_time(ms).len() - 3)
            == decimal(((ms / 1000) / 60) as nat),
{
    let minutes = ((ms / 1000) / 60) as nat;
    let seconds = ((ms / 1000) % 60) as nat;
    let t = transcript_time(ms);
    crate::text::lemma_decimal_digits(minutes);
    crate::text::lemma_decimal_digits(minutes / 10);
    if minutes >= 10 {
        assert(decimal(minutes) == decimal(minutes / 10).push(
            crate::text::digit_char((minutes % 10) as int),
        ));
    }
    assert(two_digits(minutes).len() >= 2);
    reveal_with_fuel(decimal, 2);
    if minutes < 10 {
        assert(two_digits(minutes) =~= seq!['0', crate::text::digit_char(minutes as int)]);
    } else if minutes < 100 {
        assert(decimal(minutes / 10) =~= seq![crate::text::digit_char((minutes / 10) as int)]);
        assert(two_digits(minutes) =~= seq![
            crate::text::digit_char((minutes / 10) as int),
            crate::text::digit_char((minutes % 10) as int),
        ]);
    }
    let sec = two_digits(seconds);
    if seconds < 10 {
        assert(sec =~= seq!['0', crate::text::digit_char(seconds as int)]);
    } else {
        assert(decimal(seconds / 10) =~= seq![crate::text::digit_char((seconds / 10) as int)]);
        assert(sec =~= seq![
            crate::text::digit_char((seconds / 10) as int),
            crate::text::digit_char((seconds % 10) as int),
        ]);
    }
    assert(t =~= two_digits(minutes) + ":"@ + sec);
    assert(":"@ =~= seq![':']) by {
        reveal_strlit(":");
    }
    assert(t[t.len() - 3] == ':');
    assert(t.subrange(0, t.len() - 3) =~= two_digits(minutes));
}

fn push_two_digits(s: &mut String, n: u64)
    ensures
        final(s)@ == old(s)@ + two_digits(n as nat),
{
    if n < 10 {
        let ghost before = s@;
        crate::text::push_char(s, '0');
        push_decimal(s, n);
        proof {
            assert(s@ =~= before + (seq!['0'] + decimal(n as nat)));
        }
    } else {
        push_decimal(s, n);
    }
}

/// Formats a transcript time as `MM:SS`.
pub fn format_transcript_time(ms: u64) -> (r: String)
    ensures
        r@ == transcript_time(ms),
{
    let total_seconds = ms / 1000;
    let mut r = String::new();
    push_two_digits(&mut r, total_seconds / 60);
    r.append(":");
    push_two_digits(&mut r, total_seconds % 60);
    proof {
        assert(r@ =~= transcript_time(ms));
    }
    r
}

/// The markdown line of one segment.
pub open spec fn segment_line(s: TranscriptSegment) -> Seq<char> {
    "["@ + transcript_time(s.start_ms) + "] **"@ + s.speaker@ + ":** "@ + s.text@ + "\n\n"@
}

/// The markdown lines of the segments, in order.
pub open spec fn segment_lines(segs: Seq<TranscriptSegment>) -> Seq<char>
    decreases segs.len(),
{
    if segs.len() == 0 {
        Seq::empty()
    } else {
        segment_lines(segs.drop_last()) + segment_line(segs.last())
    }
}

/// The markdown header: title, thread id and duration.
pub open spec fn markdown_header(m: ThreadMetadata) -> Seq<char> {
    "# "@ + m.title@ + "\n\n"@ + "Thread: `"@ + m.id@ + "`\n\n"@ + "Duration: `"@ + transcript_time(
        m.duration_ms,
    ) + "`\n\n"@
}

/// The markdown copy of a thread.
pub fn render_thread_markdown_content(
    metadata: &ThreadMetadata,
    segments: &Vec<TranscriptSegment>,
) -> (r: String)
    ensures
        r@ == markdown_header(*metadata) + segment_lines(segments@),
{
    let mut r = owned("# ");
    r.append(metadata.title.as_str());
    r.append("\n\n");
    r.append("Thread: `");
    r.append(metadata.id.as_str());
    r.append("`\n\n");
    r.append("Duration: `");
    let duration = format_transcript_time(metadata.duration_ms);
    r.append(duration.as_str());
    r.append("`\n\n");
    let ghost header = r@;
    proof {
        assert(header =~= markdown_header(*metadata));
        assert(segments@.take(0) =~= Seq::<TranscriptSegment>::empty());
        assert(r@ =~= header + segment_lines(segments@.take(0)));
    }
    let mut i: usize = 0;
    while i < segments.len()
        invariant
            i <= segments@.len(),
            r@ == header + segment_lines(segments@.take(i as int)),
        decreases segments@.len() - i,
    {
        let ghost before = r@;
        let segment = &segments[i];
        r.append("[");
        let time = format_transcript_time(segment.start_ms);
        r.append(time.as_str());
        r.append("] **");
        r.append(segment.speaker.as_str());
        r.append(":** ");
        r.append(segment.text.as_str());
        r.append("\n\n");
        proof {
            assert(segments@.take(i + 1).drop_last() =~= segments@.take(i as int));
            assert(r@ =~= before + segment_line(segments@[i as int]));
        }
        i = i + 1;
    }
    proof {
        assert(segments@.take(i as int) =~= segments@);
    }
    r
}

} // verus!
