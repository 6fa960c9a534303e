//! What may be written in more than one way.

use vstd::prelude::*;

use crate::floats::{Spellings, bits_of_text, holds, looks_float, occurs_at};
use crate::grammar::shex::reading::{read_immediate, read_tag};
use crate::grammar::stat::read_bool;
use crate::numerals::{
    dec_text, hex_text, int_reads_back, int_text, is_lower_digit, lemma_number_text,
    number_reads_back,
};
use crate::text::{lacks, lemma_span_until_concat, starts_with};

verus! {

/// The value of a tag stands in brackets behind it, or behind an equals sign up to the
/// next blank.
pub proof fn tags_have_two_spellings(tag: Seq<char>, v: Seq<char>, rest: Seq<char>)
    requires
        lacks(v, ' '),
        lacks(v, '\t'),
        lacks(v, ')'),
        rest.len() == 0 || rest[0] == ' ' || rest[0] == '\t',
    ensures
        read_tag(tag + seq!['='] + v + rest, tag) == Ok::<
            Option<(Seq<char>, Seq<char>)>,
            Seq<char>,
        >(Some((v, rest))),
        read_tag(tag + seq!['('] + v + seq![')'] + rest, tag) == Ok::<
            Option<(Seq<char>, Seq<char>)>,
            Seq<char>,
        >(Some((v, rest))),
{
    let a = tag + seq!['='] + v + rest;
    let k = tag.len() as int + 1;
    assert(a.take(k) =~= tag.push('='));
    assert(a.skip(k) =~= v + rest);
    lemma_span_until_concat(v, rest, ' ', '\t', ' ');
    let b = tag + seq!['('] + v + seq![')'] + rest;
    assert(b.take(k) =~= tag.push('('));
    assert(b.take(k)[k - 1] == '(' && tag.push('=')[k - 1] == '=');
    assert(b.skip(k) =~= v + (seq![')'] + rest));
    lemma_span_until_concat(v, seq![')'] + rest, ')', ')', ')');
    assert((v + (seq![')'] + rest)).skip(v.len() as int + 1) =~= rest);
}

/// A value is hexadecimal behind 0x, and else a signed number in decimal; what looks
/// like a floating-point number has the bits that the table gives.
pub proof fn values_have_their_spellings(n: u32, i: int, s: Seq<char>, ft: Spellings)
    requires
        -0x8000_0000 <= i <= 0x7fff_ffff,
    ensures
        read_immediate(seq!['0', 'x'] + hex_text(n as nat), ft) == Ok::<u32, Seq<char>>(n),
        read_immediate(int_text(i), ft) == Ok::<u32, Seq<char>>(
            (if i < 0 {
                i + 0x1_0000_0000
            } else {
                i
            }) as u32,
        ),
        looks_float(s) && !starts_with(s, seq!['0', 'x']) && bits_of_text(ft, s) is Some
            ==> read_immediate(s, ft) == Ok::<u32, Seq<char>>(bits_of_text(ft, s)->0),
{
    reveal_strlit("0x");
    assert("0x"@ =~= seq!['0', 'x']);
    let h = hex_text(n as nat);
    let t = seq!['0', 'x'] + h;
    number_reads_back(n as nat, 16, 0xffff_ffff);
    assert(t.take(2) =~= "0x"@);
    assert(t.skip(2) =~= h);
    int_reads_back(i, 0x7fff_ffff);
    lemma_int_plain(i);
}

/// A whole number is not taken for a hexadecimal or a floating-point one.
proof fn lemma_int_plain(i: int)
    ensures
        !starts_with(int_text(i), "0x"@),
        !looks_float(int_text(i)),
{
    reveal_strlit("0x");
    reveal_strlit("inf");
    reveal_strlit("nan");
    reveal_strlit("NaN");
    let t = int_text(i);
    let n = (if i < 0 {
        -i
    } else {
        i
    }) as nat;
    let d = dec_text(n);
    lemma_number_text(n, 10);
    assert forall|k: int| 0 <= k < t.len() implies #[trigger] t[k] == '-' || ('0' <= t[k]
        && t[k] <= '9') by {
        if i < 0 {
            if k > 0 {
                assert(t[k] == d[k - 1]);
                assert(is_lower_digit(d[k - 1], 10));
            }
        } else {
            assert(is_lower_digit(d[k], 10));
        }
    }
    if starts_with(t, "0x"@) {
        assert(t.take(2)[1] == 'x');
        assert(t[1] == 'x');
    }
    lemma_not_held(t, "inf"@);
    lemma_not_held(t, "nan"@);
    lemma_not_held(t, "NaN"@);
}

proof fn lemma_not_held(t: Seq<char>, p: Seq<char>)
    requires
        p.len() > 0,
        p[0] == 'i' || p[0] == 'n' || p[0] == 'N',
        forall|k: int| 0 <= k < t.len() ==> #[trigger] t[k] == '-' || ('0' <= t[k] && t[k] <= '9'),
    ensures
        !holds(t, p),
{
    if holds(t, p) {
        let i = choose|i: int| occurs_at(t, p, i);
        assert(t.subrange(i, i + p.len() as int)[0] == t[i]);
    }
}

/// A truth value is one of two words, and anything else is none.
pub proof fn truth_values_are_two_words(s: Seq<char>)
    ensures
        read_bool("true"@) == Some(true),
        read_bool("false"@) == Some(false),
        s != "true"@ && s != "false"@ ==> read_bool(s) is None,
{
    reveal_strlit("true");
    reveal_strlit("false");
    assert("true"@.len() == 4 && "false"@.len() == 5);
}

} // verus!
