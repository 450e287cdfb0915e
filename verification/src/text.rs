//! Character-level string helpers with exact specifications.
//!
//! Strings are viewed as `Seq<char>`. Rust orders `String`s by their UTF-8
//! bytes, which is the same as ordering them by code point, so the
//! lexicographic order here is the order `String::cmp` uses.

use vstd::prelude::*;
use vstd::std_specs::iter::IteratorSpec;

verus! {

/// The characters of `s`, in order.
pub fn chars_of(s: &str) -> (v: Vec<char>)
    ensures
        v@ == s@,
{
    let mut v: Vec<char> = Vec::new();
    for c in it: s.chars()
        invariant
            it.seq() == s@,
            v@ == s@.take(it.index()),
    {
        v.push(c);
    }
    v
}

/// Calls `String::push`. Trusted: the string afterwards holds its former
/// characters followed by `c`, as the standard library documents.
#[verifier::external_body]
pub(crate) fn push_char(s: &mut String, c: char)
    ensures
        final(s)@ == old(s)@.push(c),
{
    s.push(c);
}

/// The string made of `chars[from..to]`.
pub fn string_from_chars(chars: &Vec<char>, from: usize, to: usize) -> (s: String)
    requires
        from <= to <= chars@.len(),
    ensures
        s@ == chars@.subrange(from as int, to as int),
{
    let mut s = String::new();
    let mut i = from;
    while i < to
        invariant
            from <= i <= to <= chars@.len(),
            s@ == chars@.subrange(from as int, i as int),
        decreases to - i,
    {
        push_char(&mut s, chars[i]);
        i = i + 1;
    }
    s
}

/// An owned copy of a string slice.
pub fn owned(s: &str) -> (r: String)
    ensures
        r@ == s@,
{
    s.to_owned()
}

/// Whether two string slices hold the same characters.
pub fn str_eq(a: &str, b: &str) -> (r: bool)
    ensures
        r == (a@ == b@),
{
    let x = a.to_owned();
    let y = b.to_owned();
    x == y
}

/// An owned copy of a string.
pub fn copy_string(s: &String) -> (r: String)
    ensures
        r@ == s@,
{
    s.clone()
}

/// The Unicode `White_Space` property, which `char::is_whitespace` tests.
pub open spec fn is_whitespace(c: char) -> bool {
    let v = c as u32;
    ||| 9 <= v <= 13
    ||| v == 32
    ||| v == 0x85
    ||| v == 0xA0
    ||| v == 0x1680
    ||| 0x2000 <= v <= 0x200A
    ||| v == 0x2028
    ||| v == 0x2029
    ||| v == 0x202F
    ||| v == 0x205F
    ||| v == 0x3000
}

/// Whether `c` is whitespace, as `char::is_whitespace` decides it.
pub fn char_is_whitespace(c: char) -> (r: bool)
    ensures
        r == is_whitespace(c),
{
    let v = c as u32;
    (9 <= v && v <= 13) || v == 32 || v == 0x85 || v == 0xA0 || v == 0x1680 || (0x2000 <= v && v
        <= 0x200A) || v == 0x2028 || v == 0x2029 || v == 0x202F || v == 0x205F || v == 0x3000
}

/// `s` without its leading whitespace.
pub open spec fn trim_start(s: Seq<char>) -> Seq<char>
    decreases s.len(),
{
    if s.len() > 0 && is_whitespace(s[0]) {
        trim_start(s.drop_first())
    } else {
        s
    }
}

/// `s` without its trailing whitespace.
pub open spec fn trim_end(s: Seq<char>) -> Seq<char>
    decreases s.len(),
{
    if s.len() > 0 && is_whitespace(s.last()) {
        trim_end(s.drop_last())
    } else {
        s
    }
}

/// `s` without leading or trailing whitespace (`str::trim`).
pub open spec fn trim(s: Seq<char>) -> Seq<char> {
    trim_end(trim_start(s))
}

/// The bounds of the trimmed part of `s`: `s[from..to]` is `trim(s)`.
pub fn trim_bounds(s: &Vec<char>) -> (r: (usize, usize))
    ensures
        r.0 <= r.1 <= s@.len(),
        s@.subrange(r.0 as int, r.1 as int) == trim(s@),
{
    let len = s.len();
    let mut a: usize = 0;
    proof {
        assert(s@.skip(0) =~= s@);
    }
    while a < len && char_is_whitespace(s[a])
        invariant
            len == s@.len(),
            a <= len,
            trim_start(s@) == trim_start(s@.skip(a as int)),
        decreases len - a,
    {
        proof {
            assert(s@.skip(a as int).drop_first() =~= s@.skip(a + 1));
        }
        a = a + 1;
    }
    let mut b: usize = len;
    proof {
        assert(s@.skip(a as int) =~= s@.subrange(a as int, len as int));
    }
    while b > a && char_is_whitespace(s[b - 1])
        invariant
            len == s@.len(),
            a <= b <= len,
            trim_start(s@) == s@.subrange(a as int, len as int),
            trim_end(s@.subrange(a as int, len as int)) == trim_end(s@.subrange(a as int, b as int)),
        decreases b - a,
    {
        proof {
            assert(s@.subrange(a as int, b as int).drop_last() =~= s@.subrange(a as int, b - 1));
        }
        b = b - 1;
    }
    (a, b)
}

/// `s` trimmed, as an owned string.
pub fn trimmed(s: &str) -> (r: String)
    ensures
        r@ == trim(s@),
{
    let chars = chars_of(s);
    let (a, b) = trim_bounds(&chars);
    string_from_chars(&chars, a, b)
}

/// Whether `s` is empty or all whitespace.
pub open spec fn is_blank(s: Seq<char>) -> bool {
    trim(s).len() == 0
}

/// Lexicographic order on character sequences; a proper prefix comes first.
pub open spec fn seq_lt(a: Seq<char>, b: Seq<char>) -> bool
    decreases a.len(),
{
    if a.len() == 0 {
        b.len() > 0
    } else if b.len() == 0 {
        false
    } else if a[0] < b[0] {
        true
    } else if a[0] > b[0] {
        false
    } else {
        seq_lt(a.drop_first(), b.drop_first())
    }
}

/// `seq_lt` is transitive.
pub proof fn lemma_seq_lt_trans(a: Seq<char>, b: Seq<char>, c: Seq<char>)
    requires
        seq_lt(a, b),
        seq_lt(b, c),
    ensures
        seq_lt(a, c),
    decreases a.len(),
{
    if a.len() > 0 && b.len() > 0 && c.len() > 0 && a[0] == b[0] && b[0] == c[0] {
        lemma_seq_lt_trans(a.drop_first(), b.drop_first(), c.drop_first());
    }
}

/// `seq_lt` is irreflexive.
pub proof fn lemma_seq_lt_irreflexive(a: Seq<char>)
    ensures
        !seq_lt(a, a),
    decreases a.len(),
{
    if a.len() > 0 {
        lemma_seq_lt_irreflexive(a.drop_first());
    }
}

/// `seq_lt` is total: of two different sequences, one comes first.
pub proof fn lemma_seq_lt_total(a: Seq<char>, b: Seq<char>)
    ensures
        seq_lt(a, b) || seq_lt(b, a) || a == b,
    decreases a.len(),
{
    if a.len() > 0 && b.len() > 0 && a[0] == b[0] {
        lemma_seq_lt_total(a.drop_first(), b.drop_first());
        if a.drop_first() == b.drop_first() {
            assert(a =~= seq![a[0]] + a.drop_first());
            assert(b =~= seq![b[0]] + b.drop_first());
        }
    } else if a.len() == 0 && b.len() == 0 {
        assert(a =~= b);
    }
}

/// "Not after" is transitive: `x <= y <= z` gives `x <= z`.
pub proof fn lemma_seq_le_trans(x: Seq<char>, y: Seq<char>, z: Seq<char>)
    requires
        !seq_lt(y, x),
        !seq_lt(z, y),
    ensures
        !seq_lt(z, x),
{
    lemma_seq_lt_total(x, y);
    if seq_lt(z, x) && seq_lt(x, y) {
        lemma_seq_lt_trans(z, x, y);
    }
}

/// "Not after" both ways means equal.
pub proof fn lemma_seq_le_antisymmetric(x: Seq<char>, y: Seq<char>)
    requires
        !seq_lt(y, x),
        !seq_lt(x, y),
    ensures
        x == y,
{
    lemma_seq_lt_total(x, y);
}

/// The outcome of comparing two values.
#[derive(Clone, Copy, Debug, PartialEq, Eq, Structural)]
pub enum Order {
    Less,
    Equal,
    Greater,
}

/// Compares two character sequences lexicographically.
pub fn compare_chars(a: &Vec<char>, b: &Vec<char>) -> (r: Order)
    ensures
        (r == Order::Less) == seq_lt(a@, b@),
        (r == Order::Greater) == seq_lt(b@, a@),
        (r == Order::Equal) == (a@ == b@),
{
    let mut i: usize = 0;
    proof {
        assert(a@.skip(0) =~= a@);
        assert(b@.skip(0) =~= b@);
    }
    while i < a.len() && i < b.len()
        invariant
            i <= a@.len(),
            i <= b@.len(),
            a@.take(i as int) == b@.take(i as int),
            seq_lt(a@, b@) == seq_lt(a@.skip(i as int), b@.skip(i as int)),
            seq_lt(b@, a@) == seq_lt(b@.skip(i as int), a@.skip(i as int)),
        decreases a@.len() - i,
    {
        let x = a[i];
        let y = b[i];
        if x < y {
            return Order::Less;
        }
        if x > y {
            return Order::Greater;
        }
        proof {
            assert(a@[i as int] == b@[i as int]);
            assert(a@.skip(i as int).drop_first() =~= a@.skip(i + 1));
            assert(b@.skip(i as int).drop_first() =~= b@.skip(i + 1));
            assert(a@.take(i + 1) =~= a@.take(i as int).push(a@[i as int]));
            assert(b@.take(i + 1) =~= b@.take(i as int).push(b@[i as int]));
        }
        i = i + 1;
    }
    if a.len() < b.len() {
        Order::Less
    } else if a.len() > b.len() {
        Order::Greater
    } else {
        proof {
            assert(a@ =~= a@.take(i as int));
            assert(b@ =~= b@.take(i as int));
        }
        Order::Equal
    }
}

/// The decimal digit or lowercase hexadecimal digit for `d` (below 16).
pub open spec fn digit_char(d: int) -> char {
    if d == 0 {
        '0'
    } else if d == 1 {
        '1'
    } else if d == 2 {
        '2'
    } else if d == 3 {
        '3'
    } else if d == 4 {
        '4'
    } else if d == 5 {
        '5'
    } else if d == 6 {
        '6'
    } else if d == 7 {
        '7'
    } else if d == 8 {
        '8'
    } else if d == 9 {
        '9'
    } else if d == 10 {
        'a'
    } else if d == 11 {
        'b'
    } else if d == 12 {
        'c'
    } else if d == 13 {
        'd'
    } else if d == 14 {
        'e'
    } else {
        'f'
    }
}

fn digit(d: u64) -> (c: char)
    requires
        d < 16,
    ensures
        c == digit_char(d as int),
{
    if d == 0 {
        '0'
    } else if d == 1 {
        '1'
    } else if d == 2 {
        '2'
    } else if d == 3 {
        '3'
    } else if d == 4 {
        '4'
    } else if d == 5 {
        '5'
    } else if d == 6 {
        '6'
    } else if d == 7 {
        '7'
    } else if d == 8 {
        '8'
    } else if d == 9 {
        '9'
    } else if d == 10 {
        'a'
    } else if d == 11 {
        'b'
    } else if d == 12 {
        'c'
    } else if d == 13 {
        'd'
    } else if d == 14 {
        'e'
    } else {
        'f'
    }
}

/// The decimal representation of `n`, as `format!("{n}")` writes it.
pub open spec fn decimal(n: nat) -> Seq<char>
    decreases n,
{
    if n < 10 {
        seq![digit_char(n as int)]
    } else {
        decimal(n / 10).push(digit_char((n % 10) as int))
    }
}

fn decimal_chars(n: u64) -> (v: Vec<char>)
    ensures
        v@ == decimal(n as nat),
    decreases n,
{
    if n < 10 {
        let mut v = Vec::new();
        v.push(digit(n));
        v
    } else {
        let mut v = decimal_chars(n / 10);
        v.push(digit(n % 10));
        v
    }
}

/// Appends the decimal representation of `n` to `s`.
pub fn push_decimal(s: &mut String, n: u64)
    ensures
        final(s)@ == old(s)@ + decimal(n as nat),
{
    let digits = decimal_chars(n);
    let mut i: usize = 0;
    while i < digits.len()
        invariant
            i <= digits@.len(),
            digits@ == decimal(n as nat),
            s@ == old(s)@ + digits@.take(i as int),
        decreases digits@.len() - i,
    {
        push_char(s, digits[i]);
        proof {
            assert(digits@.take(i + 1) =~= digits@.take(i as int).push(digits@[i as int]));
        }
        i = i + 1;
    }
    proof {
        assert(digits@.take(i as int) =~= digits@);
    }
}

/// The last `width` hexadecimal digits of `n`, zero-padded, lowercase.
pub open spec fn hex_digits(n: nat, width: nat) -> Seq<char>
    decreases width,
{
    if width == 0 {
        Seq::empty()
    } else {
        hex_digits(n / 16, (width - 1) as nat).push(digit_char((n % 16) as int))
    }
}

fn hex_chars(n: u64, width: u64) -> (v: Vec<char>)
    ensures
        v@ == hex_digits(n as nat, width as nat),
    decreases width,
{
    if width == 0 {
        Vec::new()
    } else {
        let mut v = hex_chars(n / 16, width - 1);
        v.push(digit(n % 16));
        v
    }
}

/// Appends `n` as 16 lowercase hexadecimal digits, as `format!("{n:016x}")`.
pub fn push_hex16(s: &mut String, n: u64)
    ensures
        final(s)@ == old(s)@ + hex_digits(n as nat, 16),
{
    let digits = hex_chars(n, 16);
    let mut i: usize = 0;
    while i < digits.len()
        invariant
            i <= digits@.len(),
            digits@ == hex_digits(n as nat, 16),
            s@ == old(s)@ + digits@.take(i as int),
        decreases digits@.len() - i,
    {
        push_char(s, digits[i]);
        proof {
            assert(digits@.take(i + 1) =~= digits@.take(i as int).push(digits@[i as int]));
        }
        i = i + 1;
    }
    proof {
        assert(digits@.take(i as int) =~= digits@);
    }
}

/// `hex_digits` always yields exactly `width` characters.
pub proof fn lemma_hex_digits_len(n: nat, width: nat)
    ensures
        hex_digits(n, width).len() == width,
    decreases width,
{
    if width > 0 {
        lemma_hex_digits_len(n / 16, (width - 1) as nat);
    }
}

/// Appends `t` to `s`.
pub fn push_str(s: &mut String, t: &str)
    ensures
        final(s)@ == old(s)@ + t@,
{
    s.append(t);
}

/// `char::is_ascii_digit`: `'0'` to `'9'`.
pub open spec fn is_ascii_digit(c: char) -> bool {
    '0' <= c && c <= '9'
}

/// Every character of `s` is an ASCII digit.
pub open spec fn all_ascii_digits(s: Seq<char>) -> bool {
    forall|i: int| 0 <= i < s.len() ==> is_ascii_digit(#[trigger] s[i])
}

/// A decimal representation is a non-empty run of ASCII digits.
pub proof fn lemma_decimal_digits(n: nat)
    ensures
        decimal(n).len() >= 1,
        all_ascii_digits(decimal(n)),
    decreases n,
{
    if n >= 10 {
        lemma_decimal_digits(n / 10);
        assert forall|i: int| 0 <= i < decimal(n).len() implies is_ascii_digit(
            #[trigger] decimal(n)[i],
        ) by {
            if i < decimal(n / 10).len() {
                assert(decimal(n)[i] == decimal(n / 10)[i]);
            }
        }
    }
}

proof fn lemma_digit_char_injective(a: int, b: int)
    requires
        0 <= a < 16,
        0 <= b < 16,
        digit_char(a) == digit_char(b),
    ensures
        a == b,
{
}

/// Distinct numbers have distinct decimal representations.
pub proof fn lemma_decimal_injective(a: nat, b: nat)
    requires
        decimal(a) == decimal(b),
    ensures
        a == b,
    decreases a,
{
    if a < 10 && b < 10 {
        assert(decimal(a) == seq![digit_char(a as int)]);
        assert(decimal(b) == seq![digit_char(b as int)]);
        assert(decimal(a)[0] == digit_char(a as int));
        assert(decimal(b)[0] == digit_char(b as int));
        lemma_digit_char_injective(a as int, b as int);
    } else if a < 10 {
        lemma_decimal_digits(b / 10);
        assert(decimal(b).len() >= 2);
    } else if b < 10 {
        lemma_decimal_digits(a / 10);
        assert(decimal(a).len() >= 2);
    } else {
        assert(decimal(a) == decimal(a / 10).push(digit_char((a % 10) as int)));
        assert(decimal(b) == decimal(b / 10).push(digit_char((b % 10) as int)));
        assert(decimal(a).last() == digit_char((a % 10) as int));
        assert(decimal(b).last() == digit_char((b % 10) as int));
        assert(decimal(a).drop_last() =~= decimal(a / 10));
        assert(decimal(b).drop_last() =~= decimal(b / 10));
        lemma_digit_char_injective((a % 10) as int, (b % 10) as int);
        lemma_decimal_injective(a / 10, b / 10);
    }
}

proof fn lemma_trim_start_skips(s: Seq<char>) -> (a: int)
    ensures
        0 <= a <= s.len(),
        trim_start(s) == s.skip(a),
        forall|k: int| 0 <= k < a ==> is_whitespace(#[trigger] s[k]),
        a < s.len() ==> !is_whitespace(s[a]),
    decreases s.len(),
{
    if s.len() > 0 && is_whitespace(s[0]) {
        let b = lemma_trim_start_skips(s.drop_first());
        assert(s.drop_first().skip(b) =~= s.skip(b + 1));
        assert forall|k: int| 0 <= k < b + 1 implies is_whitespace(#[trigger] s[k]) by {
            if k > 0 {
                assert(s[k] == s.drop_first()[k - 1]);
            }
        }
        if b + 1 < s.len() {
            assert(s[b + 1] == s.drop_first()[b]);
        }
        b + 1
    } else {
        assert(s.skip(0) =~= s);
        0
    }
}

proof fn lemma_trim_end_takes(s: Seq<char>) -> (b: int)
    ensures
        0 <= b <= s.len(),
        trim_end(s) == s.take(b),
        forall|k: int| b <= k < s.len() ==> is_whitespace(#[trigger] s[k]),
        b > 0 ==> !is_whitespace(s[b - 1]),
    decreases s.len(),
{
    if s.len() > 0 && is_whitespace(s.last()) {
        let b = lemma_trim_end_takes(s.drop_last());
        assert(s.drop_last().take(b) =~= s.take(b));
        assert forall|k: int| b <= k < s.len() implies is_whitespace(#[trigger] s[k]) by {
            if k < s.len() - 1 {
                assert(s[k] == s.drop_last()[k]);
            }
        }
        if b > 0 {
            assert(s[b - 1] == s.drop_last()[b - 1]);
        }
        b
    } else {
        assert(s.take(s.len() as int) =~= s);
        s.len() as int
    }
}

/// Trimming keeps the part of `s` between its leading and trailing
/// whitespace: what is cut off is all whitespace, and a non-empty result
/// starts and ends with a character that is not; an empty result means `s`
/// is all whitespace.
pub proof fn trim_keeps_the_text_between_surrounding_whitespace(s: Seq<char>)
    ensures
        exists|a: int|
            0 <= a && a + trim(s).len() <= s.len() && #[trigger] s.subrange(a, a + trim(s).len())
                == trim(s) && (forall|k: int| 0 <= k < a ==> is_whitespace(#[trigger] s[k])) && (
            forall|k: int| a + trim(s).len() <= k < s.len() ==> is_whitespace(#[trigger] s[k])),
        trim(s).len() > 0 ==> !is_whitespace(trim(s)[0]) && !is_whitespace(trim(s).last()),
        trim(s).len() == 0 <==> forall|k: int| 0 <= k < s.len() ==> is_whitespace(#[trigger] s[k]),
{
    let a = lemma_trim_start_skips(s);
    let rest = s.skip(a);
    let b = lemma_trim_end_takes(rest);
    let t = trim(s);
    assert(t == rest.take(b));
    assert(t =~= s.subrange(a, a + b));
    assert forall|k: int| a + b <= k < s.len() implies is_whitespace(#[trigger] s[k]) by {
        assert(s[k] == rest[k - a]);
    }
    if b > 0 {
        assert(t[0] == s[a]);
        assert(t.last() == rest[b - 1]);
    }
    if b == 0 {
        assert forall|k: int| 0 <= k < s.len() implies is_whitespace(#[trigger] s[k]) by {
            if k >= a {
                assert(s[k] == rest[k - a]);
            }
        }
    } else {
        assert(!is_whitespace(s[a]));
    }
    assert(s.subrange(a, a + t.len()) == t);
}

} // verus!
