//! Text primitives: lines, tokens and white space over character sequences.
//!
//! Text is read as a slice of characters and written to a [`String`]. Every
//! function here is specified over `Seq<char>`, the view both share.

use vstd::prelude::*;
use vstd::slice::slice_subrange;

verus! {

/// [`String::push`] appends the given character to the end of the string.
pub assume_specification[ String::push ](s: &mut String, c: char)
    ensures
        final(s)@ == old(s)@.push(c),
;

/// The characters of `s`.
pub fn chars_of(s: &str) -> (r: Vec<char>)
    ensures
        r@ == s@,
{
    let mut v: Vec<char> = Vec::new();
    for c in it: s.chars()
        invariant
            v@ == it.seq().take(it.index() as int),
            it.seq() == s@,
    {
        v.push(c);
    }
    v
}

/// Append the characters `s` to `out`.
pub fn push_chars(out: &mut String, s: &[char])
    ensures
        final(out)@ == old(out)@ + s@,
{
    let mut i: usize = 0;
    while i < s.len()
        invariant
            i <= s.len(),
            out@ == old(out)@ + s@.take(i as int),
        decreases s.len() - i,
    {
        out.push(s[i]);
        i += 1;
        assert(out@ =~= old(out)@ + s@.take(i as int));
    }
    assert(s@.take(i as int) =~= s@);
}

/// Append the text `s` to `out`.
pub fn push_text(out: &mut String, s: &str)
    ensures
        final(out)@ == old(out)@ + s@,
{
    out.append(s);
}

/// The text as a string of its own.
pub fn owned(s: &str) -> (r: String)
    ensures
        r@ == s@,
{
    let mut out = String::new();
    push_text(&mut out, s);
    assert(out@ =~= s@);
    out
}

/// The string holding exactly the characters `s`.
pub fn string_of(s: &[char]) -> (r: String)
    ensures
        r@ == s@,
{
    let mut out = String::new();
    push_chars(&mut out, s);
    assert(out@ =~= s@);
    out
}

/// Whether the two character sequences are the same.
pub fn chars_eq(a: &[char], b: &[char]) -> (r: bool)
    ensures
        r == (a@ == b@),
{
    if a.len() != b.len() {
        return false;
    }
    let mut i: usize = 0;
    while i < a.len()
        invariant
            a.len() == b.len(),
            i <= a.len(),
            forall|k: int| 0 <= k < i ==> a@[k] == b@[k],
        decreases a.len() - i,
    {
        if a[i] != b[i] {
            return false;
        }
        i += 1;
    }
    assert(a@ =~= b@);
    true
}

/// Whether `s` spells `lit`.
pub fn is_text(s: &[char], lit: &str) -> (r: bool)
    ensures
        r == (s@ == lit@),
{
    let l = chars_of(lit);
    chars_eq(s, l.as_slice())
}

/// Whether `c` occurs nowhere in `s`.
pub open spec fn lacks(s: Seq<char>, c: char) -> bool {
    forall|i: int| 0 <= i < s.len() ==> #[trigger] s[i] != c
}

/// What lacks a character on both sides lacks it when joined.
pub proof fn lemma_lacks_concat(a: Seq<char>, b: Seq<char>, c: char)
    ensures
        lacks(a + b, c) == (lacks(a, c) && lacks(b, c)),
{
    let s = a + b;
    if lacks(s, c) {
        assert forall|i: int| 0 <= i < a.len() implies #[trigger] a[i] != c by {
            assert(s[i] == a[i]);
        }
        assert forall|i: int| 0 <= i < b.len() implies #[trigger] b[i] != c by {
            assert(s[a.len() + i] == b[i]);
        }
    }
}

/// Whether `s` begins with the characters of `p`.
pub open spec fn starts_with(s: Seq<char>, p: Seq<char>) -> bool {
    p.len() <= s.len() && s.take(p.len() as int) == p
}

/// Whether `s` ends with the characters of `p`.
pub open spec fn ends_with(s: Seq<char>, p: Seq<char>) -> bool {
    p.len() <= s.len() && s.skip(s.len() - p.len()) == p
}

/// `s` without the leading `p`, if it begins with it.
pub open spec fn strip_prefix(s: Seq<char>, p: Seq<char>) -> Option<Seq<char>> {
    if starts_with(s, p) {
        Some(s.skip(p.len() as int))
    } else {
        None
    }
}

/// `s` without the trailing character `c`, if it ends with it.
pub open spec fn strip_last(s: Seq<char>, c: char) -> Option<Seq<char>> {
    if s.len() > 0 && s.last() == c {
        Some(s.drop_last())
    } else {
        None
    }
}

/// The characters from position `n` on.
pub fn skip<'a>(s: &'a [char], n: usize) -> (r: &'a [char])
    requires
        n <= s.len(),
    ensures
        r@ == s@.skip(n as int),
{
    slice_subrange(s, n, s.len())
}

/// The first `n` characters.
pub fn take<'a>(s: &'a [char], n: usize) -> (r: &'a [char])
    requires
        n <= s.len(),
    ensures
        r@ == s@.take(n as int),
{
    slice_subrange(s, 0, n)
}

/// If `s` begins with `p`, what follows it.
pub fn strip_prefix_chars<'a>(s: &'a [char], p: &[char]) -> (r: Option<&'a [char]>)
    ensures
        match r {
            Some(rest) => strip_prefix(s@, p@) == Some(rest@),
            None => strip_prefix(s@, p@) is None,
        },
{
    if p.len() > s.len() {
        return None;
    }
    let head = take(s, p.len());
    if chars_eq(head, p) {
        Some(skip(s, p.len()))
    } else {
        None
    }
}

/// If `s` begins with the text `p`, what follows it.
pub fn strip_text<'a>(s: &'a [char], p: &str) -> (r: Option<&'a [char]>)
    ensures
        match r {
            Some(rest) => strip_prefix(s@, p@) == Some(rest@),
            None => strip_prefix(s@, p@) is None,
        },
{
    let pc = chars_of(p);
    strip_prefix_chars(s, pc.as_slice())
}

/// If `s` ends with the character `c`, what precedes it.
pub fn strip_last_char<'a>(s: &'a [char], c: char) -> (r: Option<&'a [char]>)
    ensures
        match r {
            Some(rest) => strip_last(s@, c) == Some(rest@),
            None => strip_last(s@, c) is None,
        },
{
    if s.len() > 0 && s[s.len() - 1] == c {
        let r = take(s, s.len() - 1);
        assert(r@ =~= s@.drop_last());
        Some(r)
    } else {
        None
    }
}

// ---------------------------------------------------------------------------
// Concatenation
// ---------------------------------------------------------------------------

/// Joining is associative.
pub proof fn lemma_cat3<A>(a: Seq<A>, b: Seq<A>, c: Seq<A>)
    ensures
        (a + b) + c == a + (b + c),
{
    assert((a + b) + c =~= a + (b + c));
}

/// Joining four parts, from the left or from the right.
pub proof fn lemma_cat4<A>(a: Seq<A>, b: Seq<A>, c: Seq<A>, d: Seq<A>)
    ensures
        ((a + b) + c) + d == a + (b + (c + d)),
{
    assert(((a + b) + c) + d =~= a + (b + (c + d)));
}

/// Appending three parts one after the other appends the three joined.
pub proof fn lemma_append3<A>(o: Seq<A>, a: Seq<A>, b: Seq<A>, c: Seq<A>)
    ensures
        ((o + a) + b) + c == o + ((a + b) + c),
{
    lemma_cat3(o, a, b);
    lemma_cat3(o, a + b, c);
}

/// Appending four parts one after the other appends the four joined.
pub proof fn lemma_append4<A>(o: Seq<A>, a: Seq<A>, b: Seq<A>, c: Seq<A>, d: Seq<A>)
    ensures
        (((o + a) + b) + c) + d == o + (((a + b) + c) + d),
{
    lemma_append3(o, a, b, c);
    lemma_cat3(o, (a + b) + c, d);
}

/// Joining five parts, from the left or from the right.
pub proof fn lemma_cat5<A>(a: Seq<A>, b: Seq<A>, c: Seq<A>, d: Seq<A>, e: Seq<A>)
    ensures
        (((a + b) + c) + d) + e == a + (b + (c + (d + e))),
{
    lemma_cat4(a, b, c, d);
    lemma_cat3(a, b + (c + d), e);
    lemma_cat4(b, c, d, e);
    lemma_cat3(b, c + d, e);
    lemma_cat3(c, d, e);
}

/// Joining six parts, from the left or from the right.
pub proof fn lemma_cat6<A>(
    a: Seq<A>,
    b: Seq<A>,
    c: Seq<A>,
    d: Seq<A>,
    e: Seq<A>,
    f: Seq<A>,
)
    ensures
        ((((a + b) + c) + d) + e) + f == a + (b + (c + (d + (e + f)))),
{
    lemma_cat5(a, b, c, d, e);
    lemma_cat3(a, b + (c + (d + e)), f);
    lemma_cat3(b, c + (d + e), f);
    lemma_cat3(c, d + e, f);
    lemma_cat3(d, e, f);
}

// ---------------------------------------------------------------------------
// Characters
// ---------------------------------------------------------------------------

/// The characters with the Unicode property `White_Space`.
pub open spec fn is_white(c: char) -> bool {
    ('\u{9}' <= c && c <= '\u{d}') || c == ' ' || c == '\u{85}' || c == '\u{a0}' || c == '\u{1680}'
        || ('\u{2000}' <= c && c <= '\u{200a}') || c == '\u{2028}' || c == '\u{2029}' || c
        == '\u{202f}' || c == '\u{205f}' || c == '\u{3000}'
}

/// Whether `c` is white space.
pub fn white(c: char) -> (r: bool)
    ensures
        r == is_white(c),
{
    ('\u{9}' <= c && c <= '\u{d}') || c == ' ' || c == '\u{85}' || c == '\u{a0}' || c == '\u{1680}'
        || ('\u{2000}' <= c && c <= '\u{200a}') || c == '\u{2028}' || c == '\u{2029}' || c
        == '\u{202f}' || c == '\u{205f}' || c == '\u{3000}'
}

/// Whether `c` is one of the ten decimal digits.
pub open spec fn is_digit(c: char) -> bool {
    '0' <= c && c <= '9'
}

/// Whether `c` is a decimal digit.
pub fn digit(c: char) -> (r: bool)
    ensures
        r == is_digit(c),
{
    '0' <= c && c <= '9'
}

// ---------------------------------------------------------------------------
// Spans
// ---------------------------------------------------------------------------

/// Length of the longest prefix of `s` free of `a`, `b` and `c`.
pub open spec fn span_until(s: Seq<char>, a: char, b: char, c: char) -> nat
    decreases s.len(),
{
    if s.len() == 0 || s[0] == a || s[0] == b || s[0] == c {
        0
    } else {
        1 + span_until(s.skip(1), a, b, c)
    }
}

/// The span never runs past the end, stops at a stop character, and holds none.
pub proof fn lemma_span_until(s: Seq<char>, a: char, b: char, c: char)
    ensures
        span_until(s, a, b, c) <= s.len(),
        forall|i: int|
            0 <= i < span_until(s, a, b, c) ==> #[trigger] s[i] != a && s[i] != b && s[i] != c,
        span_until(s, a, b, c) < s.len() ==> {
            let x = s[span_until(s, a, b, c) as int];
            x == a || x == b || x == c
        },
    decreases s.len(),
{
    if s.len() == 0 || s[0] == a || s[0] == b || s[0] == c {
    } else {
        lemma_span_until(s.skip(1), a, b, c);
        assert forall|i: int| 0 <= i < span_until(s, a, b, c) implies #[trigger] s[i] != a && s[i]
            != b && s[i] != c by {
            if i > 0 {
                assert(s[i] == s.skip(1)[i - 1]);
            }
        }
    }
}

/// A stop-free text followed by nothing or by a stop spans exactly that text.
pub proof fn lemma_span_until_concat(t: Seq<char>, rest: Seq<char>, a: char, b: char, c: char)
    requires
        forall|i: int| 0 <= i < t.len() ==> #[trigger] t[i] != a && t[i] != b && t[i] != c,
        rest.len() == 0 || rest[0] == a || rest[0] == b || rest[0] == c,
    ensures
        span_until(t + rest, a, b, c) == t.len(),
        (t + rest).take(t.len() as int) == t,
        (t + rest).skip(t.len() as int) == rest,
    decreases t.len(),
{
    let s = t + rest;
    assert(s.take(t.len() as int) =~= t);
    assert(s.skip(t.len() as int) =~= rest);
    if t.len() == 0 {
        assert(s =~= rest);
    } else {
        assert(s[0] == t[0]);
        assert(s.skip(1) =~= t.skip(1) + rest);
        assert forall|i: int| 0 <= i < t.skip(1).len() implies #[trigger] t.skip(1)[i] != a
            && t.skip(1)[i] != b && t.skip(1)[i] != c by {
            assert(t.skip(1)[i] == t[i + 1]);
        }
        lemma_span_until_concat(t.skip(1), rest, a, b, c);
    }
}

/// Length of the longest prefix free of the three stop characters.
pub fn span_until_any(s: &[char], a: char, b: char, c: char) -> (n: usize)
    ensures
        n == span_until(s@, a, b, c),
        n <= s.len(),
{
    let mut i: usize = 0;
    assert(s@.skip(0) =~= s@);
    while i < s.len() && s[i] != a && s[i] != b && s[i] != c
        invariant
            i <= s.len(),
            span_until(s@, a, b, c) == i + span_until(s@.skip(i as int), a, b, c),
        decreases s.len() - i,
    {
        assert(s@.skip(i as int).skip(1) =~= s@.skip(i as int + 1));
        assert(s@.skip(i as int)[0] == s@[i as int]);
        i += 1;
    }
    if i < s.len() {
        assert(s@.skip(i as int)[0] == s@[i as int]);
    }
    i
}

/// Length of the longest prefix of decimal digits.
pub open spec fn span_digits(s: Seq<char>) -> nat
    decreases s.len(),
{
    if s.len() == 0 || !is_digit(s[0]) {
        0
    } else {
        1 + span_digits(s.skip(1))
    }
}

/// Length of the longest prefix of decimal digits.
pub fn digits_len(s: &[char]) -> (n: usize)
    ensures
        n == span_digits(s@),
        n <= s.len(),
{
    let mut i: usize = 0;
    assert(s@.skip(0) =~= s@);
    while i < s.len() && digit(s[i])
        invariant
            i <= s.len(),
            span_digits(s@) == i + span_digits(s@.skip(i as int)),
        decreases s.len() - i,
    {
        assert(s@.skip(i as int).skip(1) =~= s@.skip(i as int + 1));
        assert(s@.skip(i as int)[0] == s@[i as int]);
        i += 1;
    }
    if i < s.len() {
        assert(s@.skip(i as int)[0] == s@[i as int]);
    }
    i
}

/// Digits followed by a non-digit, or by nothing, span exactly those digits.
pub proof fn lemma_span_digits_concat(t: Seq<char>, rest: Seq<char>)
    requires
        forall|i: int| 0 <= i < t.len() ==> is_digit(#[trigger] t[i]),
        rest.len() == 0 || !is_digit(rest[0]),
    ensures
        span_digits(t + rest) == t.len(),
        (t + rest).take(t.len() as int) == t,
        (t + rest).skip(t.len() as int) == rest,
    decreases t.len(),
{
    let s = t + rest;
    assert(s.take(t.len() as int) =~= t);
    assert(s.skip(t.len() as int) =~= rest);
    if t.len() == 0 {
        assert(s =~= rest);
    } else {
        assert(s[0] == t[0]);
        assert(s.skip(1) =~= t.skip(1) + rest);
        assert forall|i: int| 0 <= i < t.skip(1).len() implies is_digit(
            #[trigger] t.skip(1)[i],
        ) by {
            assert(t.skip(1)[i] == t[i + 1]);
        }
        lemma_span_digits_concat(t.skip(1), rest);
    }
}

/// `s` without leading spaces.
pub open spec fn skip_spaces(s: Seq<char>) -> Seq<char>
    decreases s.len(),
{
    if s.len() > 0 && s[0] == ' ' {
        skip_spaces(s.skip(1))
    } else {
        s
    }
}

/// `s` without leading spaces.
pub fn after_spaces<'a>(s: &'a [char]) -> (r: &'a [char])
    ensures
        r@ == skip_spaces(s@),
        r@.len() <= s@.len(),
{
    let mut i: usize = 0;
    assert(s@.skip(0) =~= s@);
    while i < s.len() && s[i] == ' '
        invariant
            i <= s.len(),
            skip_spaces(s@) == skip_spaces(s@.skip(i as int)),
        decreases s.len() - i,
    {
        assert(s@.skip(i as int).skip(1) =~= s@.skip(i as int + 1));
        assert(s@.skip(i as int)[0] == s@[i as int]);
        i += 1;
    }
    if i < s.len() {
        assert(s@.skip(i as int)[0] == s@[i as int]);
    }
    skip(s, i)
}

} // verus!
