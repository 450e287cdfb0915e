//! Thread titles.

use vstd::prelude::*;

use crate::text::{
    chars_of, is_blank, is_whitespace, owned, string_from_chars, trim, trim_bounds, trim_end,
    trim_start,
};

verus! {

/// The longest title a thread may have, in characters.
pub const MAX_TITLE_CHARS: usize = 120;

/// The outcome of validating a user-entered title.
pub open spec fn validated_title_spec(title: Seq<char>) -> Result<Seq<char>, Seq<char>> {
    if is_blank(title) {
        Err("Thread title cannot be empty"@)
    } else if trim(title).len() > 120 {
        Err("Thread title must stay under 120 characters"@)
    } else {
        Ok(trim(title))
    }
}

/// A user-entered title, trimmed; blank or overlong titles are refused.
pub fn validated_title(title: &str) -> (r: Result<&str, String>)
    ensures
        match validated_title_spec(title@) {
            Ok(t) => r matches Ok(x) && x@ == t,
            Err(m) => r matches Err(e) && e@ == m,
        },
{
    let chars = chars_of(title);
    let (a, b) = trim_bounds(&chars);
    if a == b {
        return Err(owned("Thread title cannot be empty"));
    }
    if b - a > MAX_TITLE_CHARS {
        return Err(owned("Thread title must stay under 120 characters"));
    }
    Ok(title.substring_char(a, b))
}

/// A title from outside the app, trimmed and cut to 120 characters; a blank
/// one becomes "Untitled thread".
pub open spec fn normalized_external_title_spec(title: Seq<char>) -> Seq<char> {
    let t = if trim(title).len() <= 120 {
        trim(title)
    } else {
        trim(title).take(120)
    };
    if t.len() == 0 {
        "Untitled thread"@
    } else {
        t
    }
}

/// A title from outside the app (a calendar event), made safe to use.
pub fn normalized_external_title(title: &str) -> (r: String)
    ensures
        r@ == normalized_external_title_spec(title@),
{
    let chars = chars_of(title);
    let (a, b) = trim_bounds(&chars);
    let end = if b - a <= MAX_TITLE_CHARS {
        b
    } else {
        a + MAX_TITLE_CHARS
    };
    proof {
        assert(chars@.subrange(a as int, end as int) =~= if trim(title@).len() <= 120 {
            trim(title@)
        } else {
            trim(title@).take(120)
        });
    }
    if a == end {
        owned("Untitled thread")
    } else {
        string_from_chars(&chars, a, end)
    }
}

proof fn lemma_trim_end_prefix(s: Seq<char>)
    ensures
        trim_end(s).len() <= s.len(),
        trim_end(s) == s.take(trim_end(s).len() as int),
        s.len() > 0 && !is_whitespace(s[0]) ==> trim_end(s).len() >= 1,
    decreases s.len(),
{
    if s.len() > 0 && is_whitespace(s.last()) {
        lemma_trim_end_prefix(s.drop_last());
        let t = trim_end(s.drop_last());
        assert(s.drop_last().take(t.len() as int) =~= s.take(t.len() as int));
        if !is_whitespace(s[0]) {
            assert(s.len() > 1);
            assert(s.drop_last()[0] == s[0]);
        }
    } else {
        assert(s.take(s.len() as int) =~= s);
    }
}

proof fn lemma_trim_start_first(s: Seq<char>)
    ensures
        trim_start(s).len() <= s.len(),
        trim_start(s).len() > 0 ==> !is_whitespace(trim_start(s)[0]),
    decreases s.len(),
{
    if s.len() > 0 && is_whitespace(s[0]) {
        lemma_trim_start_first(s.drop_first());
    }
}

/// A non-empty trimmed string starts with a character that is not whitespace.
proof fn lemma_trim_first(s: Seq<char>)
    ensures
        trim(s).len() <= s.len(),
        trim(s).len() > 0 ==> !is_whitespace(trim(s)[0]),
{
    lemma_trim_start_first(s);
    lemma_trim_end_prefix(trim_start(s));
    if trim(s).len() > 0 {
        assert(trim(s)[0] == trim_start(s).take(trim(s).len() as int)[0]);
    }
}

/// A string that starts with a character other than whitespace is not blank,
/// and trimming it keeps it within its length.
proof fn lemma_not_blank(s: Seq<char>)
    requires
        s.len() > 0,
        !is_whitespace(s[0]),
    ensures
        !is_blank(s),
        trim(s).len() <= s.len(),
{
    assert(trim_start(s) == s);
    lemma_trim_end_prefix(s);
}

/// A title taken from outside the app always passes validation, and is
/// between 1 and 120 characters long.
pub proof fn external_titles_are_valid_titles(title: Seq<char>)
    ensures
        validated_title_spec(normalized_external_title_spec(title)) is Ok,
        1 <= normalized_external_title_spec(title).len() <= 120,
{
    let t = trim(title);
    lemma_trim_first(title);
    let n = normalized_external_title_spec(title);
    if t.len() == 0 {
        reveal_strlit("Untitled thread");
        assert(n.len() == 15);
        assert(!is_whitespace(n[0]));
        lemma_not_blank(n);
    } else {
        let cut = if t.len() <= 120 {
            t
        } else {
            t.take(120)
        };
        assert(cut[0] == t[0]);
        assert(n == cut);
        lemma_not_blank(cut);
    }
}

/// A user-entered title is accepted exactly when the text between its
/// surrounding whitespace has 1 to 120 characters, and the accepted title is
/// that text: the input is it with only whitespace around it, and it starts
/// and ends with a character that is not whitespace. An all-whitespace title
/// is refused as empty, a longer one as too long.
pub proof fn titles_are_trimmed_and_bounded(title: Seq<char>)
    ensures
        validated_title_spec(title) matches Ok(t) ==> {
            &&& 1 <= t.len() <= 120
            &&& !is_whitespace(t[0]) && !is_whitespace(t.last())
            &&& exists|a: int|
                0 <= a && a + t.len() <= title.len() && #[trigger] title.subrange(a, a + t.len()) == t
                    && (forall|k: int| 0 <= k < a ==> is_whitespace(#[trigger] title[k])) && (forall|
                    k: int,
                | a + t.len() <= k < title.len() ==> is_whitespace(#[trigger] title[k]))
        },
        (forall|k: int| 0 <= k < title.len() ==> is_whitespace(#[trigger] title[k]))
            ==> validated_title_spec(title) == Err::<Seq<char>, Seq<char>>(
            "Thread title cannot be empty"@,
        ),
        forall|a: int, b: int|
            0 <= a < b <= title.len() && b - a > 120 && !is_whitespace(#[trigger] title[a])
                && !is_whitespace(#[trigger] title[b - 1]) ==> validated_title_spec(title) == Err::<
                Seq<char>,
                Seq<char>,
            >("Thread title must stay under 120 characters"@),
{
    crate::text::trim_keeps_the_text_between_surrounding_whitespace(title);
    let t = trim(title);
    let a = choose|a: int|
        0 <= a && a + t.len() <= title.len() && #[trigger] title.subrange(a, a + t.len()) == t && (
        forall|k: int| 0 <= k < a ==> is_whitespace(#[trigger] title[k])) && (forall|k: int|
            a + t.len() <= k < title.len() ==> is_whitespace(#[trigger] title[k]));
    assert forall|x: int, y: int|
        0 <= x < y <= title.len() && y - x > 120 && !is_whitespace(#[trigger] title[x])
            && !is_whitespace(#[trigger] title[y - 1]) implies validated_title_spec(title) == Err::<
        Seq<char>,
        Seq<char>,
    >("Thread title must stay under 120 characters"@) by {
        assert(a <= x);
        assert(y - 1 < a + t.len());
        assert(t.len() > 0);
    }
}

/// A title from outside the app is its text without surrounding whitespace,
/// cut to its first 120 characters; an all-whitespace title reads
/// "Untitled thread".
pub proof fn external_titles_keep_their_text_up_to_the_limit(title: Seq<char>)
    ensures
        (forall|k: int| 0 <= k < title.len() ==> is_whitespace(#[trigger] title[k]))
            ==> normalized_external_title_spec(title) == "Untitled thread"@,
        !(forall|k: int| 0 <= k < title.len() ==> is_whitespace(#[trigger] title[k])) ==> exists|
            a: int,
        |
            0 <= a && a + normalized_external_title_spec(title).len() <= title.len()
                && #[trigger] title.subrange(a, a + normalized_external_title_spec(title).len())
                == normalized_external_title_spec(title) && (forall|k: int|
                0 <= k < a ==> is_whitespace(#[trigger] title[k])) && !is_whitespace(
                normalized_external_title_spec(title)[0],
            ) && (normalized_external_title_spec(title).len() < 120 ==> forall|k: int|
                a + normalized_external_title_spec(title).len() <= k < title.len() ==> is_whitespace(
                    #[trigger] title[k],
                )),
{
    crate::text::trim_keeps_the_text_between_surrounding_whitespace(title);
    let t = trim(title);
    let n = normalized_external_title_spec(title);
    if t.len() > 0 {
        let a = choose|a: int|
            0 <= a && a + t.len() <= title.len() && #[trigger] title.subrange(a, a + t.len()) == t
                && (forall|k: int| 0 <= k < a ==> is_whitespace(#[trigger] title[k])) && (forall|k: int|
                a + t.len() <= k < title.len() ==> is_whitespace(#[trigger] title[k]));
        if t.len() > 120 {
            assert(n == t.take(120));
            assert(title.subrange(a, a + 120) =~= t.take(120));
        } else {
            assert(n == t);
        }
        assert(n[0] == t[0]);
        assert(title.subrange(a, a + n.len()) == n);
    }
}

} // verus!
