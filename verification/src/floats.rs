//! Decimal spellings of single-precision numbers.
//!
//! The library holds floating-point values as bits. Which decimal text stands
//! for which bits is told it by a [`FloatTable`]; a value the table does not
//! spell is written in hexadecimal, so nothing is lost without it.

use vstd::prelude::*;

use crate::text::{chars_eq, chars_of, is_text};

verus! {

/// The bits of a single-precision number and decimal texts for it.
#[derive(Debug, PartialEq, Eq)]
pub struct FloatSpelling {
    /// The bits.
    pub bits: u32,
    /// The text that shows it to be a floating-point number, such as `4.0`.
    pub text: String,
    /// The text where it can be nothing else, such as `4`.
    pub plain: String,
}

/// A list of spellings; the first that fits counts.
#[derive(Debug, PartialEq, Eq)]
pub struct FloatTable {
    /// The spellings.
    pub entries: Vec<FloatSpelling>,
}

/// The model of a table: bits and texts of each entry.
pub type Spellings = Seq<(u32, Seq<char>, Seq<char>)>;

impl View for FloatTable {
    type V = Spellings;

    open spec fn view(&self) -> Spellings {
        Seq::new(
            self.entries@.len(),
            |i: int| (self.entries@[i].bits, self.entries@[i].text@, self.entries@[i].plain@),
        )
    }
}

/// The text of the first entry for `bits`.
pub open spec fn text_of_bits(t: Spellings, bits: u32) -> Option<Seq<char>>
    decreases t.len(),
{
    if t.len() == 0 {
        None
    } else if t[0].0 == bits {
        Some(t[0].1)
    } else {
        text_of_bits(t.skip(1), bits)
    }
}

/// The plain text of the first entry for `bits`.
pub open spec fn plain_of_bits(t: Spellings, bits: u32) -> Option<Seq<char>>
    decreases t.len(),
{
    if t.len() == 0 {
        None
    } else if t[0].0 == bits {
        Some(t[0].2)
    } else {
        plain_of_bits(t.skip(1), bits)
    }
}

/// The bits of the first entry with that text, the one or the other.
pub open spec fn bits_of_text(t: Spellings, text: Seq<char>) -> Option<u32>
    decreases t.len(),
{
    if t.len() == 0 {
        None
    } else if t[0].1 == text || t[0].2 == text {
        Some(t[0].0)
    } else {
        bits_of_text(t.skip(1), text)
    }
}

/// Whether `c` occurs in the decimal text of a floating-point number.
pub open spec fn is_float_char(c: char) -> bool {
    ('0' <= c && c <= '9') || c == '.' || c == '-' || c == '+' || c == 'e' || c == 'E' || c == 'i'
        || c == 'n' || c == 'f'
}

/// Whether `s` holds `p` at position `i`.
pub open spec fn occurs_at(s: Seq<char>, p: Seq<char>, i: int) -> bool {
    0 <= i <= s.len() - p.len() && s.subrange(i, i + p.len() as int) == p
}

/// Whether `s` holds `p` anywhere.
pub open spec fn holds(s: Seq<char>, p: Seq<char>) -> bool {
    exists|i: int| occurs_at(s, p, i)
}

/// Whether a number written like this is a floating-point one.
pub open spec fn looks_float(s: Seq<char>) -> bool {
    s.contains('.') || s.contains('e') || s.contains('E') || holds(s, "inf"@) || holds(s, "nan"@)
        || holds(s, "NaN"@)
}

/// The text under which `bits` is written, where the table has one that is
/// plainly a floating-point number and reads back as those bits.
pub open spec fn spelled(t: Spellings, bits: u32) -> Option<Seq<char>> {
    match text_of_bits(t, bits) {
        Some(s) if s.len() > 0 && (forall|i: int| 0 <= i < s.len() ==> is_float_char(#[trigger] s[i]))
            && looks_float(s) && bits_of_text(t, s) == Some(bits) => Some(s),
        _ => None,
    }
}

/// The plain text under which `bits` is written, where the table has one that
/// reads back as those bits; it may be `NaN`.
pub open spec fn plainly_spelled(t: Spellings, bits: u32) -> Option<Seq<char>> {
    match plain_of_bits(t, bits) {
        Some(s) if s.len() > 0 && ((forall|i: int|
            0 <= i < s.len() ==> is_float_char(#[trigger] s[i])) || s == "NaN"@) && bits_of_text(
            t,
            s,
        ) == Some(bits) => Some(s),
        _ => None,
    }
}

/// Whether `s` holds `p` anywhere.
pub fn holds_text(s: &[char], p: &str) -> (r: bool)
    ensures
        r == holds(s@, p@),
{
    let pc = chars_of(p);
    let n: usize = pc.len();
    let mut i: usize = 0;
    while s.len() - i >= n
        invariant
            pc@ == p@,
            n == pc.len(),
            i <= s.len(),
            forall|k: int| 0 <= k < i ==> !occurs_at(s@, p@, k),
        decreases s.len() - i,
    {
        let part = vstd::slice::slice_subrange(s, i, i + n);
        if chars_eq(part, pc.as_slice()) {
            assert(occurs_at(s@, p@, i as int));
            return true;
        }
        assert(!occurs_at(s@, p@, i as int));
        if n == 0 {
            assert(part@ =~= pc@);
        }
        i += 1;
    }
    assert(forall|k: int| !occurs_at(s@, p@, k));
    false
}

/// Whether `s` holds the character `c`.
pub fn holds_char(s: &[char], c: char) -> (r: bool)
    ensures
        r == s@.contains(c),
{
    let mut i: usize = 0;
    while i < s.len()
        invariant
            i <= s.len(),
            forall|k: int| 0 <= k < i ==> s@[k] != c,
        decreases s.len() - i,
    {
        if s[i] == c {
            assert(s@[i as int] == c);
            return true;
        }
        i += 1;
    }
    false
}

/// Whether a number written like this is a floating-point one.
pub fn is_float_text(s: &[char]) -> (r: bool)
    ensures
        r == looks_float(s@),
{
    holds_char(s, '.') || holds_char(s, 'e') || holds_char(s, 'E') || holds_text(s, "inf")
        || holds_text(s, "nan") || holds_text(s, "NaN")
}

fn all_float_chars(s: &[char]) -> (r: bool)
    ensures
        r == (forall|i: int| 0 <= i < s@.len() ==> is_float_char(#[trigger] s@[i])),
{
    let mut i: usize = 0;
    while i < s.len()
        invariant
            i <= s.len(),
            forall|k: int| 0 <= k < i ==> is_float_char(#[trigger] s@[k]),
        decreases s.len() - i,
    {
        let c = s[i];
        let ok = ('0' <= c && c <= '9') || c == '.' || c == '-' || c == '+' || c == 'e' || c == 'E'
            || c == 'i' || c == 'n' || c == 'f';
        if !ok {
            assert(!is_float_char(s@[i as int]));
            return false;
        }
        i += 1;
    }
    true
}

impl FloatTable {
    /// A table without spellings.
    pub fn new() -> (r: FloatTable)
        ensures
            r@ == Spellings::empty(),
    {
        let r = FloatTable { entries: Vec::new() };
        assert(r@ =~= Spellings::empty());
        r
    }

    /// Add a spelling behind those already there.
    pub fn push(&mut self, bits: u32, text: String, plain: String)
        ensures
            final(self)@ == old(self)@.push((bits, text@, plain@)),
    {
        self.entries.push(FloatSpelling { bits, text, plain });
        assert(self@ =~= old(self)@.push((bits, text@, plain@)));
    }

    /// The bits that `text` spells.
    pub fn bits(&self, text: &[char]) -> (r: Option<u32>)
        ensures
            r == bits_of_text(self@, text@),
    {
        let mut i: usize = 0;
        let ghost t = self@;
        assert(t.skip(0) =~= t);
        while i < self.entries.len()
            invariant
                t == self@,
                i <= self.entries.len(),
                bits_of_text(t, text@) == bits_of_text(t.skip(i as int), text@),
            decreases self.entries.len() - i,
        {
            assert(t.skip(i as int)[0] == t[i as int]);
            assert(t.skip(i as int).skip(1) =~= t.skip(i as int + 1));
            let e = chars_of(self.entries[i].text.as_str());
            let f = chars_of(self.entries[i].plain.as_str());
            if chars_eq(e.as_slice(), text) || chars_eq(f.as_slice(), text) {
                return Some(self.entries[i].bits);
            }
            i += 1;
        }
        None
    }

    /// The text under which `bits` is written.
    pub fn spelling(&self, bits: u32) -> (r: Option<Vec<char>>)
        ensures
            match r {
                Some(s) => spelled(self@, bits) == Some(s@),
                None => spelled(self@, bits) is None,
            },
    {
        let mut i: usize = 0;
        let ghost t = self@;
        assert(t.skip(0) =~= t);
        while i < self.entries.len()
            invariant
                t == self@,
                i <= self.entries.len(),
                text_of_bits(t, bits) == text_of_bits(t.skip(i as int), bits),
            decreases self.entries.len() - i,
        {
            assert(t.skip(i as int)[0] == t[i as int]);
            assert(t.skip(i as int).skip(1) =~= t.skip(i as int + 1));
            if self.entries[i].bits == bits {
                let s = chars_of(self.entries[i].text.as_str());
                assert(text_of_bits(t, bits) == Some(s@));
                if s.len() > 0 && all_float_chars(s.as_slice()) && is_float_text(s.as_slice())
                    && self.bits(s.as_slice()) == Some(bits) {
                    return Some(s);
                }
                return None;
            }
            i += 1;
        }
        None
    }

    /// The plain text under which `bits` is written.
    pub fn plain_spelling(&self, bits: u32) -> (r: Option<Vec<char>>)
        ensures
            match r {
                Some(s) => plainly_spelled(self@, bits) == Some(s@),
                None => plainly_spelled(self@, bits) is None,
            },
    {
        let mut i: usize = 0;
        let ghost t = self@;
        assert(t.skip(0) =~= t);
        while i < self.entries.len()
            invariant
                t == self@,
                i <= self.entries.len(),
                plain_of_bits(t, bits) == plain_of_bits(t.skip(i as int), bits),
            decreases self.entries.len() - i,
        {
            assert(t.skip(i as int)[0] == t[i as int]);
            assert(t.skip(i as int).skip(1) =~= t.skip(i as int + 1));
            if self.entries[i].bits == bits {
                let s = chars_of(self.entries[i].plain.as_str());
                assert(plain_of_bits(t, bits) == Some(s@));
                if s.len() > 0 && (all_float_chars(s.as_slice()) || is_text(s.as_slice(), "NaN"))
                    && self.bits(s.as_slice()) == Some(bits) {
                    return Some(s);
                }
                return None;
            }
            i += 1;
        }
        None
    }
}

} // verus!
