//! The modifiers of instructions read back.

use vstd::prelude::*;

use crate::grammar::shex::reading::{
    bracketed, missing_type, modifier_parts, named_return_type, read_modifier, read_modifiers,
    read_offsets, read_resource_dim, read_resource_rt, read_return_type, read_types_from,
};
use crate::grammar::shex::text::{
    mod_nz, mod_off, mod_pm, mod_res, mod_ri, mod_rt, mod_sat, mod_sf, modifiers_text, rd_dim,
    rd_stride, rd_word, resource_dim_text, resource_rt_text, return_type_text, return_types_text,
    rr_part, rr_word,
};
use crate::grammar::tables::{dimensions, table_name, table_value};
use crate::lines::{lemma_split_once_concat, split};
use crate::numerals::{
    dec_text, hex_padded, hex_text, int_reads_back, int_text, is_lower_digit, lemma_number_text,
    number_reads_back, padded_hex_reads_back,
};
use crate::roundtrip::mnemonics::{follows_mnemonic, modifier_at};
use crate::roundtrip::names::{is_word, is_word_char};
use crate::roundtrip::tables::{
    dimension_key, lemma_dimension_keys, lemma_dimensions, lemma_keyed_name,
};
use crate::shex::ir::{Modifiers, ReturnType, no_modifiers};
use crate::text::{
    lacks, lemma_lacks_concat, lemma_span_until_concat, starts_with, strip_last, strip_prefix,
};

verus! {

// ---------------------------------------------------------------------------
// Taking a text apart at commas
// ---------------------------------------------------------------------------

/// A part, the separator, and more parts.
pub proof fn lemma_split_first(a: Seq<char>, sep: char, b: Seq<char>)
    requires
        lacks(a, sep),
    ensures
        split(a + (seq![sep] + b), sep) == seq![a] + split(b, sep),
{
    let s = a + (seq![sep] + b);
    lemma_span_until_concat(a, seq![sep] + b, sep, sep, sep);
    assert(s.skip(a.len() as int + 1) =~= b);
}

/// A part alone.
pub proof fn lemma_split_one(a: Seq<char>, sep: char)
    requires
        lacks(a, sep),
    ensures
        split(a, sep) == seq![a],
{
    assert(a + Seq::<char>::empty() =~= a);
    lemma_span_until_concat(a, Seq::empty(), sep, sep, sep);
}

/// Three parts.
pub proof fn lemma_split_three(a: Seq<char>, b: Seq<char>, c: Seq<char>)
    requires
        lacks(a, ','),
        lacks(b, ','),
        lacks(c, ','),
    ensures
        split(a + (seq![','] + (b + (seq![','] + c))), ',') == seq![a, b, c],
{
    lemma_split_one(c, ',');
    lemma_split_first(b, ',', c);
    lemma_split_first(a, ',', b + (seq![','] + c));
    assert(seq![a] + (seq![b] + seq![c]) =~= seq![a, b, c]);
}

/// Four parts.
pub proof fn lemma_split_four(a: Seq<char>, b: Seq<char>, c: Seq<char>, d: Seq<char>)
    requires
        lacks(a, ','),
        lacks(b, ','),
        lacks(c, ','),
        lacks(d, ','),
    ensures
        split(a + (seq![','] + (b + (seq![','] + (c + (seq![','] + d))))), ',') == seq![a, b, c, d],
{
    lemma_split_three(b, c, d);
    lemma_split_first(a, ',', b + (seq![','] + (c + (seq![','] + d))));
    assert(seq![a] + seq![b, c, d] =~= seq![a, b, c, d]);
}

// ---------------------------------------------------------------------------
// Return types
// ---------------------------------------------------------------------------

/// A return type reads back, and its text is a name.
pub proof fn lemma_return_type(t: ReturnType)
    ensures
        read_return_type(return_type_text(t)) == Ok::<ReturnType, Seq<char>>(t),
        is_word(return_type_text(t)),
{
    reveal_strlit("unorm");
    reveal_strlit("snorm");
    reveal_strlit("sint");
    reveal_strlit("uint");
    reveal_strlit("float");
    reveal_strlit("mixed");
    reveal_strlit("double");
    reveal_strlit("continued");
    reveal_strlit("unused");
    reveal_strlit("unknown");
    let s = return_type_text(t);
    match t {
        ReturnType::Unknown(v) => {
            let d = dec_text(v as nat);
            lemma_number_text(v as nat, 10);
            number_reads_back(v as nat, 10, 0xffff_ffff);
            assert(s.take(7) =~= "unknown"@);
            assert(s.skip(7) =~= d);
            assert(s[2] == 'k');
            assert(named_return_type(s) is None);
            assert forall|i: int| 0 <= i < s.len() implies is_word_char(#[trigger] s[i]) by {
                if i >= 7 {
                    assert(is_lower_digit(d[i - 7], 10));
                }
            }
        },
        ReturnType::Unorm => {},
        ReturnType::Snorm => {
            assert(s[0] == 's' && "unorm"@[0] == 'u');
        },
        ReturnType::Sint => {},
        ReturnType::Uint => {
            assert(s[0] == 'u' && "sint"@[0] == 's');
        },
        ReturnType::Float => {
            assert(s[0] == 'f' && "unorm"@[0] == 'u' && "snorm"@[0] == 's');
        },
        ReturnType::Mixed => {
            assert(s[0] == 'm' && "unorm"@[0] == 'u' && "snorm"@[0] == 's' && "float"@[0] == 'f');
        },
        ReturnType::Double => {},
        ReturnType::Continued => {},
        ReturnType::Unused => {
            assert(s[0] == 'u' && "double"@[0] == 'd');
        },
    }
}

/// A name lacks what is no letter, digit or underscore.
pub proof fn lemma_word_lacks(s: Seq<char>, c: char)
    requires
        is_word(s),
        !is_word_char(c),
    ensures
        lacks(s, c),
{
    assert forall|i: int| 0 <= i < s.len() implies #[trigger] s[i] != c by {
        assert(is_word_char(s[i]));
    }
}

/// Four return types read back.
pub proof fn lemma_four_types(
    a: ReturnType,
    b: ReturnType,
    c: ReturnType,
    d: ReturnType,
    missing: spec_fn(int) -> Seq<char>,
)
    ensures
        read_types_from(split(return_types_text(a, b, c, d), ','), 0, missing) == Ok::<
            Seq<ReturnType>,
            Seq<char>,
        >(seq![a, b, c, d]),
        forall|i: int|
            0 <= i < return_types_text(a, b, c, d).len() ==> {
                let x = #[trigger] return_types_text(a, b, c, d)[i];
                is_word_char(x) || x == ','
            },
{
    lemma_return_type(a);
    lemma_return_type(b);
    lemma_return_type(c);
    lemma_return_type(d);
    let ta = return_type_text(a);
    let tb = return_type_text(b);
    let tc = return_type_text(c);
    let td = return_type_text(d);
    lemma_word_lacks(ta, ',');
    lemma_word_lacks(tb, ',');
    lemma_word_lacks(tc, ',');
    lemma_word_lacks(td, ',');
    lemma_split_four(ta, tb, tc, td);
    let parts = split(return_types_text(a, b, c, d), ',');
    assert(parts == seq![ta, tb, tc, td]);
    reveal_with_fuel(read_types_from, 5);
    assert(seq![a] + (seq![b] + (seq![c] + (seq![d] + Seq::<ReturnType>::empty())))
        =~= seq![a, b, c, d]);
    let s1 = tc + (seq![','] + td);
    let s2 = tb + (seq![','] + s1);
    assert forall|i: int| 0 <= i < s1.len() implies is_word_char(#[trigger] s1[i]) || s1[i]
        == ',' by {
        if i < tc.len() {
            assert(is_word_char(tc[i]));
        } else if i > tc.len() {
            assert(is_word_char(td[i - tc.len() - 1]));
        }
    }
    assert forall|i: int| 0 <= i < s2.len() implies is_word_char(#[trigger] s2[i]) || s2[i]
        == ',' by {
        if i < tb.len() {
            assert(is_word_char(tb[i]));
        } else if i > tb.len() {
            assert(s2[i] == s1[i - tb.len() - 1]);
        }
    }
    let s = return_types_text(a, b, c, d);
    assert forall|i: int| 0 <= i < s.len() implies is_word_char(#[trigger] s[i]) || s[i]
        == ',' by {
        if i < ta.len() {
            assert(is_word_char(ta[i]));
        } else if i > ta.len() {
            assert(s[i] == s2[i - ta.len() - 1]);
        }
    }
}

// ---------------------------------------------------------------------------
// Parts
// ---------------------------------------------------------------------------

/// A part that is not empty, as a list.
pub open spec fn kept(cur: Seq<char>) -> Seq<Seq<char>> {
    if cur.len() > 0 {
        seq![cur]
    } else {
        Seq::empty()
    }
}

/// Characters other than brackets, and other than underscores outside brackets,
/// belong to the part that is being read.
proof fn lemma_parts_plain(g: Seq<char>, rest: Seq<char>, depth: int, cur: Seq<char>)
    requires
        depth >= 0,
        forall|i: int|
            0 <= i < g.len() ==> #[trigger] g[i] != '(' && g[i] != ')' && (depth > 0 || g[i]
                != '_'),
    ensures
        modifier_parts(g + rest, depth, cur) == modifier_parts(rest, depth, cur + g),
    decreases g.len(),
{
    let s = g + rest;
    if g.len() == 0 {
        assert(s =~= rest);
        assert(cur + g =~= cur);
    } else {
        assert(s[0] == g[0]);
        assert(s.skip(1) =~= g.skip(1) + rest);
        assert forall|i: int| 0 <= i < g.skip(1).len() implies #[trigger] g.skip(1)[i] != '('
            && g.skip(1)[i] != ')' && (depth > 0 || g.skip(1)[i] != '_') by {
            assert(g.skip(1)[i] == g[i + 1]);
        }
        lemma_parts_plain(g.skip(1), rest, depth, cur.push(g[0]));
        assert(cur.push(g[0]) + g.skip(1) =~= cur + g);
    }
}

/// Whether reading parts takes `g` as a whole into the part that is being read.
pub open spec fn is_part(g: Seq<char>) -> bool {
    &&& g.len() > 0
    &&& forall|rest: Seq<char>, cur: Seq<char>|
        #![trigger modifier_parts(g + rest, 0, cur)]
        modifier_parts(g + rest, 0, cur) == modifier_parts(rest, 0, cur + g)
}

proof fn lemma_plain_part(g: Seq<char>)
    requires
        g.len() > 0,
        forall|i: int| 0 <= i < g.len() ==> #[trigger] g[i] != '(' && g[i] != ')' && g[i] != '_',
    ensures
        is_part(g),
{
    assert forall|rest: Seq<char>, cur: Seq<char>|
        #![trigger modifier_parts(g + rest, 0, cur)]
        modifier_parts(g + rest, 0, cur) == modifier_parts(rest, 0, cur + g) by {
        lemma_parts_plain(g, rest, 0, cur);
    }
}

proof fn lemma_call_part(key: Seq<char>, inner: Seq<char>)
    requires
        forall|i: int|
            0 <= i < key.len() ==> #[trigger] key[i] != '(' && key[i] != ')' && key[i] != '_',
        forall|i: int| 0 <= i < inner.len() ==> #[trigger] inner[i] != '(' && inner[i] != ')',
    ensures
        is_part(key + seq!['('] + inner + seq![')']),
{
    let g = key + seq!['('] + inner + seq![')'];
    assert forall|rest: Seq<char>, cur: Seq<char>|
        #![trigger modifier_parts(g + rest, 0, cur)]
        modifier_parts(g + rest, 0, cur) == modifier_parts(rest, 0, cur + g) by {
        let r1 = seq![')'] + rest;
        let r2 = seq!['('] + (inner + r1);
        assert(g + rest =~= key + r2);
        lemma_parts_plain(key, r2, 0, cur);
        assert(r2.skip(1) =~= inner + r1);
        let c1 = (cur + key).push('(');
        lemma_parts_plain(inner, r1, 1, c1);
        assert(r1.skip(1) =~= rest);
        assert((c1 + inner).push(')') =~= cur + g);
    }
}

/// An underscore and a part before more parts.
proof fn lemma_next_part(g: Seq<char>, rest: Seq<char>, cur: Seq<char>)
    requires
        is_part(g),
    ensures
        modifier_parts(seq!['_'] + g + rest, 0, cur) == kept(cur) + modifier_parts(rest, 0, g),
{
    let s = seq!['_'] + g + rest;
    assert(s.skip(1) =~= g + rest);
    assert(Seq::<char>::empty() + g =~= g);
    assert(modifier_parts(g + rest, 0, Seq::empty()) == modifier_parts(
        rest,
        0,
        Seq::<char>::empty() + g,
    ));
}

// ---------------------------------------------------------------------------
// Each modifier
// ---------------------------------------------------------------------------

/// A modifier text is nothing, or an underscore and a part that sets it.
pub open spec fn sets(text: Seq<char>, m0: Modifiers, m1: Modifiers) -> bool {
    ||| text.len() == 0 && m0 == m1
    ||| {
        &&& text.len() > 1
        &&& text == seq!['_'] + text.skip(1)
        &&& is_part(text.skip(1))
        &&& read_modifier(m0, text.skip(1)) == Ok::<Modifiers, Seq<char>>(m1)
        &&& modifier_at(text, 1)
    }
}

proof fn lemma_ri(m: Modifiers)
    ensures
        sets(
            mod_ri(m),
            no_modifiers(),
            (Modifiers { resinfo_return_type: m.resinfo_return_type, ..no_modifiers() }),
        ),
{
    match m.resinfo_return_type {
        Some(n) => {
            reveal_strlit("_ri");
            reveal_strlit("ri");
            reveal_strlit("sat");
            reveal_strlit("nz");
            let d = dec_text(n as nat);
            lemma_number_text(n as nat, 10);
            number_reads_back(n as nat, 10, 0xff);
            let t = mod_ri(m);
            let g = t.skip(1);
            assert(g =~= "ri"@ + d);
            assert(t =~= seq!['_'] + g);
            assert(g.take(2) =~= "ri"@);
            assert(g.skip(2) =~= d);
            assert forall|i: int| 0 <= i < g.len() implies #[trigger] g[i] != '(' && g[i] != ')'
                && g[i] != '_' by {
                if i >= 2 {
                    assert(is_lower_digit(d[i - 2], 10));
                }
            }
            lemma_plain_part(g);
            assert(g[0] == 'r');
            assert("sat"@[0] == 's' && "nz"@[0] == 'n');
        },
        None => {},
    }
}

proof fn lemma_sat(m: Modifiers, m0: Modifiers)
    requires
        !m0.saturate,
    ensures
        sets(mod_sat(m), m0, (Modifiers { saturate: m.saturate, ..m0 })),
{
    if m.saturate {
        reveal_strlit("_sat");
        reveal_strlit("sat");
        let g = mod_sat(m).skip(1);
        assert(g =~= "sat"@);
        assert(mod_sat(m) =~= seq!['_'] + g);
        lemma_plain_part(g);
    }
}

proof fn lemma_nz(m: Modifiers, m0: Modifiers)
    requires
        !m0.test_nonzero,
    ensures
        sets(mod_nz(m), m0, (Modifiers { test_nonzero: m.test_nonzero, ..m0 })),
{
    if m.test_nonzero {
        reveal_strlit("_nz");
        reveal_strlit("nz");
        reveal_strlit("sat");
        let g = mod_nz(m).skip(1);
        assert(g =~= "nz"@);
        assert(mod_nz(m) =~= seq!['_'] + g);
        lemma_plain_part(g);
    }
}

/// A part of two letters and hexadecimal digits.
proof fn lemma_hex_part(key: Seq<char>, d: Seq<char>)
    requires
        key.len() == 2,
        'a' <= key[0] <= 'z',
        'a' <= key[1] <= 'z',
        forall|i: int| 0 <= i < d.len() ==> is_lower_digit(#[trigger] d[i], 16),
    ensures
        is_part(key + d),
        starts_with(key + d, key),
        (key + d).skip(2) == d,
        strip_last(key + d, ')') is None,
        forall|p: Seq<char>|
            p.len() >= 2 && #[trigger] starts_with(key + d, p) ==> p[0] == key[0] && p[1] == key[1],
        forall|p: Seq<char>| #[trigger] bracketed(key + d, p) is None,
{
    let g = key + d;
    assert(g.take(2) =~= key);
    assert(g.skip(2) =~= d);
    assert forall|i: int| 0 <= i < g.len() implies #[trigger] g[i] != '(' && g[i] != ')' && g[i]
        != '_' by {
        if i >= 2 {
            assert(is_lower_digit(d[i - 2], 16));
        }
    }
    lemma_plain_part(g);
    assert forall|p: Seq<char>| p.len() >= 2 && #[trigger] starts_with(g, p) implies p[0] == key[0]
        && p[1] == key[1] by {
        assert(g.take(p.len() as int)[0] == g[0]);
        assert(g.take(p.len() as int)[1] == g[1]);
    }
    assert forall|p: Seq<char>| #[trigger] bracketed(g, p) is None by {
        match strip_prefix(g, p) {
            Some(r) => {
                if r.len() > 0 {
                    assert(r.last() == g.last());
                    assert(g[g.len() - 1] != ')');
                }
            },
            None => {},
        }
    }
}

proof fn lemma_keys()
    ensures
        "sat"@ == seq!['s', 'a', 't'],
        "nz"@ == seq!['n', 'z'],
        "ri"@ == seq!['r', 'i'],
        "pm"@ == seq!['p', 'm'],
        "sf"@ == seq!['s', 'f'],
        "rd"@ == seq!['r', 'd'],
        "rr"@ == seq!['r', 'r'],
        "off("@ == seq!['o', 'f', 'f', '('],
        "res("@ == seq!['r', 'e', 's', '('],
        "rt("@ == seq!['r', 't', '('],
{
    reveal_strlit("sat");
    reveal_strlit("nz");
    reveal_strlit("ri");
    reveal_strlit("pm");
    reveal_strlit("sf");
    reveal_strlit("rd");
    reveal_strlit("rr");
    reveal_strlit("off(");
    reveal_strlit("res(");
    reveal_strlit("rt(");
    assert("sat"@ =~= seq!['s', 'a', 't']);
    assert("nz"@ =~= seq!['n', 'z']);
    assert("ri"@ =~= seq!['r', 'i']);
    assert("pm"@ =~= seq!['p', 'm']);
    assert("sf"@ =~= seq!['s', 'f']);
    assert("rd"@ =~= seq!['r', 'd']);
    assert("rr"@ =~= seq!['r', 'r']);
    assert("off("@ =~= seq!['o', 'f', 'f', '(']);
    assert("res("@ =~= seq!['r', 'e', 's', '(']);
    assert("rt("@ =~= seq!['r', 't', '(']);
}

proof fn lemma_pm(m: Modifiers, m0: Modifiers)
    requires
        m0.precise_mask == 0,
    ensures
        sets(mod_pm(m), m0, (Modifiers { precise_mask: m.precise_mask, ..m0 })),
{
    if m.precise_mask != 0 {
        lemma_keys();
        reveal_strlit("_pm");
        let n = m.precise_mask as nat;
        let d = hex_text(n);
        lemma_number_text(n, 16);
        number_reads_back(n, 16, 0xffff_ffff);
        let t = mod_pm(m);
        let g = t.skip(1);
        assert(g =~= "pm"@ + d);
        assert(t =~= seq!['_'] + g);
        lemma_hex_part("pm"@, d);
        assert(g[0] == 'p' && g[1] == 'm');
        assert(((n as u32) as u8) == m.precise_mask);
    }
}

proof fn lemma_sf(m: Modifiers, m0: Modifiers)
    requires
        m0.sync_flags == 0,
    ensures
        sets(mod_sf(m), m0, (Modifiers { sync_flags: m.sync_flags, ..m0 })),
{
    if m.sync_flags != 0 {
        lemma_keys();
        reveal_strlit("_sf");
        let n = m.sync_flags as nat;
        let d = hex_text(n);
        lemma_number_text(n, 16);
        number_reads_back(n, 16, 0xffff_ffff);
        let t = mod_sf(m);
        let g = t.skip(1);
        assert(g =~= "sf"@ + d);
        assert(t =~= seq!['_'] + g);
        lemma_hex_part("sf"@, d);
        assert(g[0] == 's' && g[1] == 'f');
        assert(((n as u32) as u8) == m.sync_flags);
    }
}

/// What holds of a part that is a key, an opening bracket, and more up to a
/// closing one.
proof fn lemma_call(open: Seq<char>, inner: Seq<char>)
    requires
        open.len() >= 3,
        open.last() == '(',
        forall|i: int| 0 <= i < open.len() - 1 ==> 'a' <= #[trigger] open[i] <= 'z',
        forall|i: int| 0 <= i < inner.len() ==> #[trigger] inner[i] != '(' && inner[i] != ')',
    ensures
        is_part(open + inner + seq![')']),
        bracketed(open + inner + seq![')'], open) == Some(inner),
        forall|p: Seq<char>|
            p.len() >= 2 && #[trigger] starts_with(open + inner + seq![')'], p) ==> p[0] == open[0]
                && p[1] == open[1],
{
    let g = open + inner + seq![')'];
    let key = open.drop_last();
    assert(g =~= key + seq!['('] + inner + seq![')']);
    assert forall|i: int| 0 <= i < key.len() implies #[trigger] key[i] != '(' && key[i] != ')'
        && key[i] != '_' by {
        assert(key[i] == open[i]);
    }
    lemma_call_part(key, inner);
    assert(g.take(open.len() as int) =~= open);
    let r = g.skip(open.len() as int);
    assert(r =~= inner.push(')'));
    assert(r.drop_last() =~= inner);
    assert forall|p: Seq<char>| p.len() >= 2 && #[trigger] starts_with(g, p) implies p[0] == open[0]
        && p[1] == open[1] by {
        assert(g.take(p.len() as int)[0] == g[0]);
        assert(g.take(p.len() as int)[1] == g[1]);
    }
}

pub proof fn lemma_int_chars(i: int)
    ensures
        lacks(int_text(i), ','),
        lacks(int_text(i), '('),
        lacks(int_text(i), ')'),
{
    let t = int_text(i);
    let n = (if i < 0 {
        -i
    } else {
        i
    }) as nat;
    lemma_number_text(n, 10);
    let d = dec_text(n);
    assert forall|k: int| 0 <= k < t.len() implies #[trigger] t[k] != ',' && t[k] != '(' && t[k]
        != ')' by {
        if i < 0 {
            if k > 0 {
                assert(is_lower_digit(d[k - 1], 10));
            }
        } else {
            assert(is_lower_digit(d[k], 10));
        }
    }
}

/// The three offsets between the brackets.
pub open spec fn offsets_inner(o: [i8; 3]) -> Seq<char> {
    int_text(o[0] as int) + (seq![','] + (int_text(o[1] as int) + (seq![','] + int_text(
        o[2] as int,
    ))))
}

proof fn lemma_offsets(o: [i8; 3])
    ensures
        read_offsets(offsets_inner(o)) == Ok::<[i8; 3], Seq<char>>(o),
        lacks(offsets_inner(o), '('),
        lacks(offsets_inner(o), ')'),
{
    let a = int_text(o[0] as int);
    let b = int_text(o[1] as int);
    let c = int_text(o[2] as int);
    lemma_int_chars(o[0] as int);
    lemma_int_chars(o[1] as int);
    lemma_int_chars(o[2] as int);
    int_reads_back(o[0] as int, 127);
    int_reads_back(o[1] as int, 127);
    int_reads_back(o[2] as int, 127);
    lemma_split_three(a, b, c);
    assert([o[0], o[1], o[2]] =~= o);
    let y = seq![','] + c;
    let x = seq![','] + (b + y);
    lemma_lacks_concat(seq![','], c, '(');
    lemma_lacks_concat(b, y, '(');
    lemma_lacks_concat(seq![','], b + y, '(');
    lemma_lacks_concat(a, x, '(');
    lemma_lacks_concat(seq![','], c, ')');
    lemma_lacks_concat(b, y, ')');
    lemma_lacks_concat(seq![','], b + y, ')');
    lemma_lacks_concat(a, x, ')');
}

proof fn lemma_off(m: Modifiers, m0: Modifiers)
    requires
        m0.tex_offsets is None,
    ensures
        sets(mod_off(m), m0, (Modifiers { tex_offsets: m.tex_offsets, ..m0 })),
{
    match m.tex_offsets {
        Some(o) => {
            lemma_keys();
            reveal_strlit("_off(");
            let inner = offsets_inner(o);
            lemma_offsets(o);
            let t = mod_off(m);
            let g = "off("@ + inner + seq![')'];
            assert(t =~= seq!['_'] + g);
            assert(t.skip(1) =~= g);
            lemma_call("off("@, inner);
            assert(g[0] == 'o' && g[1] == 'f');
        },
        None => {},
    }
}

/// The name of a resource dimension is a word and has its number.
pub proof fn lemma_dimension(v: u32)
    ensures
        match table_name(dimensions(), v) {
            Some(n) => table_value(dimensions(), n) == Some(v) && is_word(n),
            None => true,
        },
{
    let key = |s: Seq<char>| dimension_key(s);
    lemma_dimension_keys();
    lemma_dimensions();
    lemma_keyed_name(dimensions(), key, v);
}

/// What stands between the brackets of a resource dimension.
pub open spec fn dim_inner(rd: u32) -> Seq<char> {
    let name = table_name(dimensions(), rd_dim(rd))->0;
    if rd_stride(rd) == 0 {
        name
    } else {
        name + ",stride="@ + dec_text(rd_stride(rd) as nat)
    }
}

proof fn lemma_dim_inner(rd: u32)
    requires
        table_name(dimensions(), rd_dim(rd)) is Some,
        rd_word(rd_dim(rd), rd_stride(rd)) == rd,
    ensures
        read_resource_dim(dim_inner(rd)) == Ok::<u32, Seq<char>>(rd),
        lacks(dim_inner(rd), '('),
        lacks(dim_inner(rd), ')'),
{
    let name = table_name(dimensions(), rd_dim(rd))->0;
    lemma_dimension(rd_dim(rd));
    lemma_word_lacks(name, ',');
    lemma_word_lacks(name, '(');
    lemma_word_lacks(name, ')');
    if rd_stride(rd) == 0 {
        lemma_split_one(name, ',');
        assert(name + Seq::<char>::empty() =~= name);
        lemma_span_until_concat(name, Seq::empty(), ',', ',', ',');
    } else {
        reveal_strlit(",stride=");
        reveal_strlit("stride=");
        let n = rd_stride(rd) as nat;
        let d = dec_text(n);
        lemma_number_text(n, 10);
        number_reads_back(n, 10, 0xffff_ffff);
        let v = "stride="@ + d;
        assert(dim_inner(rd) =~= name + seq![','] + v);
        assert(!name.contains(',')) by {
            if name.contains(',') {
                let i = choose|i: int| 0 <= i < name.len() && name[i] == ',';
                assert(name[i] != ',');
            }
        }
        lemma_split_once_concat(name, ',', v);
        assert(v.take(7) =~= "stride="@);
        assert(v.skip(7) =~= d);
        assert forall|i: int| 0 <= i < v.len() implies #[trigger] v[i] != '(' && v[i] != ')' by {
            if i >= 7 {
                assert(is_lower_digit(d[i - 7], 10));
            }
        }
        assert(lacks(name + seq![','] + v, '('));
        assert(lacks(name + seq![','] + v, ')'));
    }
}

proof fn lemma_res(m: Modifiers, m0: Modifiers)
    requires
        m0.resource_dim is None,
    ensures
        sets(mod_res(m), m0, (Modifiers { resource_dim: m.resource_dim, ..m0 })),
{
    match m.resource_dim {
        Some(rd) => {
            lemma_keys();
            let t = mod_res(m);
            let name = table_name(dimensions(), rd_dim(rd));
            if rd & 0x3F == 2 && rd_word(rd_dim(rd), rd_stride(rd)) == rd && name is Some {
                reveal_strlit("_res(");
                let inner = dim_inner(rd);
                lemma_dim_inner(rd);
                let g = "res("@ + inner + seq![')'];
                assert(t =~= seq!['_'] + g);
                assert(t.skip(1) =~= g);
                lemma_call("res("@, inner);
                assert(g[0] == 'r' && g[1] == 'e' && g[3] == '(');
                assert(bracketed(g, "off("@) is None);
                assert(read_modifier(m0, g) == Ok::<Modifiers, Seq<char>>(
                    Modifiers { resource_dim: Some(rd), ..m0 },
                ));
            } else {
                reveal_strlit("_rd");
                let d = hex_padded(rd as nat, 8);
                padded_hex_reads_back(rd as nat, 8, 0xffff_ffff);
                let g = "rd"@ + d;
                assert(t =~= seq!['_'] + g);
                assert(t.skip(1) =~= g);
                lemma_hex_part("rd"@, d);
                assert(g[0] == 'r' && g[1] == 'd');
                assert(read_modifier(m0, g) == Ok::<Modifiers, Seq<char>>(
                    Modifiers { resource_dim: Some(rd), ..m0 },
                ));
            }
        },
        None => {},
    }
}

/// What stands between the brackets of resource return types.
pub open spec fn rt_inner(rr: u32) -> Seq<char> {
    return_types_text(
        ReturnType::spec_from_u32(rr_part(rr, 0)),
        ReturnType::spec_from_u32(rr_part(rr, 1)),
        ReturnType::spec_from_u32(rr_part(rr, 2)),
        ReturnType::spec_from_u32(rr_part(rr, 3)),
    )
}

proof fn lemma_rt_inner(rr: u32)
    requires
        rr_word(rr_part(rr, 0), rr_part(rr, 1), rr_part(rr, 2), rr_part(rr, 3)) == rr,
    ensures
        read_resource_rt(rt_inner(rr)) == Ok::<u32, Seq<char>>(rr),
        lacks(rt_inner(rr), '('),
        lacks(rt_inner(rr), ')'),
{
    let a = ReturnType::spec_from_u32(rr_part(rr, 0));
    let b = ReturnType::spec_from_u32(rr_part(rr, 1));
    let c = ReturnType::spec_from_u32(rr_part(rr, 2));
    let d = ReturnType::spec_from_u32(rr_part(rr, 3));
    let missing = |k: int| missing_type(k);
    lemma_four_types(a, b, c, d, missing);
    assert(a.spec_to_u32() == rr_part(rr, 0));
    assert(b.spec_to_u32() == rr_part(rr, 1));
    assert(c.spec_to_u32() == rr_part(rr, 2));
    assert(d.spec_to_u32() == rr_part(rr, 3));
}

/// Return types between brackets.
proof fn lemma_rt_call(inner: Seq<char>, rr: u32, m0: Modifiers)
    requires
        read_resource_rt(inner) == Ok::<u32, Seq<char>>(rr),
        lacks(inner, '('),
        lacks(inner, ')'),
    ensures
        sets(
            "_rt("@ + inner + seq![')'],
            m0,
            (Modifiers { resource_return_type: Some(rr), ..m0 }),
        ),
{
    lemma_keys();
    reveal_strlit("_rt(");
    let t = "_rt("@ + inner + seq![')'];
    let g = "rt("@ + inner + seq![')'];
    assert(t =~= seq!['_'] + g);
    assert(t.skip(1) =~= g);
    lemma_call("rt("@, inner);
    assert(g[0] == 'r' && g[1] == 't' && g[2] == '(');
    assert(bracketed(g, "off("@) is None);
    assert(bracketed(g, "res("@) is None);
    assert(read_modifier(m0, g) == Ok::<Modifiers, Seq<char>>(
        Modifiers { resource_return_type: Some(rr), ..m0 },
    ));
}

/// Return types in hexadecimal.
proof fn lemma_rr(rr: u32, m0: Modifiers)
    ensures
        sets(
            "_rr"@ + hex_padded(rr as nat, 8),
            m0,
            (Modifiers { resource_return_type: Some(rr), ..m0 }),
        ),
{
    lemma_keys();
    reveal_strlit("_rr");
    let d = hex_padded(rr as nat, 8);
    let t = "_rr"@ + d;
    padded_hex_reads_back(rr as nat, 8, 0xffff_ffff);
    let g = "rr"@ + d;
    assert(t =~= seq!['_'] + g);
    assert(t.skip(1) =~= g);
    lemma_hex_part("rr"@, d);
    assert(g[0] == 'r' && g[1] == 'r');
    assert(read_modifier(m0, g) == Ok::<Modifiers, Seq<char>>(
        Modifiers { resource_return_type: Some(rr), ..m0 },
    ));
}

proof fn lemma_rt(m: Modifiers, m0: Modifiers)
    requires
        m0.resource_return_type is None,
    ensures
        sets(mod_rt(m), m0, (Modifiers { resource_return_type: m.resource_return_type, ..m0 })),
{
    match m.resource_return_type {
        Some(rr) => {
            if rr & 0x3F == 3 && rr_word(rr_part(rr, 0), rr_part(rr, 1), rr_part(rr, 2), rr_part(rr, 3))
                == rr {
                lemma_rt_inner(rr);
                lemma_rt_call(rt_inner(rr), rr, m0);
            } else {
                lemma_rr(rr, m0);
            }
        },
        None => {},
    }
}

// ---------------------------------------------------------------------------
// All modifiers
// ---------------------------------------------------------------------------

/// Reading the parts from number `k` on is reading those parts alone.
proof fn lemma_read_modifiers_skip(m: Modifiers, segs: Seq<Seq<char>>, k: int)
    requires
        0 <= k <= segs.len(),
    ensures
        read_modifiers(m, segs, k) == read_modifiers(m, segs.skip(k), 0),
    decreases segs.len() - k,
{
    let t = segs.skip(k);
    if k < segs.len() {
        assert(t[0] == segs[k]);
        match read_modifier(m, segs[k]) {
            Ok(m2) => {
                lemma_read_modifiers_skip(m2, segs, k + 1);
                lemma_read_modifiers_skip(m2, t, 1);
                assert(t.skip(1) =~= segs.skip(k + 1));
            },
            Err(_) => {},
        }
    }
}

/// Reading the modifier of `text` and then those of `rest`.
proof fn lemma_step(text: Seq<char>, rest: Seq<char>, m0: Modifiers, m1: Modifiers, m: Modifiers)
    requires
        sets(text, m0, m1),
        forall|cur: Seq<char>|
            #![trigger modifier_parts(rest, 0, cur)]
            modifier_parts(rest, 0, cur) == kept(cur) + modifier_parts(rest, 0, Seq::empty()),
        read_modifiers(m1, modifier_parts(rest, 0, Seq::empty()), 0) == Ok::<
            Modifiers,
            Seq<char>,
        >(m),
        follows_mnemonic(rest),
    ensures
        forall|cur: Seq<char>|
            #![trigger modifier_parts(text + rest, 0, cur)]
            modifier_parts(text + rest, 0, cur) == kept(cur) + modifier_parts(
                text + rest,
                0,
                Seq::empty(),
            ),
        read_modifiers(m0, modifier_parts(text + rest, 0, Seq::empty()), 0) == Ok::<
            Modifiers,
            Seq<char>,
        >(m),
        follows_mnemonic(text + rest),
{
    let all = text + rest;
    if text.len() == 0 {
        assert(all =~= rest);
    } else {
        let g = text.skip(1);
        let more = modifier_parts(rest, 0, Seq::empty());
        assert(all =~= seq!['_'] + g + rest);
        lemma_next_part(g, rest, Seq::empty());
        assert(modifier_parts(rest, 0, g) == kept(g) + more);
        let parts = modifier_parts(all, 0, Seq::empty());
        assert(parts =~= seq![g] + more);
        assert forall|cur: Seq<char>|
            #![trigger modifier_parts(all, 0, cur)]
            modifier_parts(all, 0, cur) == kept(cur) + parts by {
            lemma_next_part(g, rest, cur);
        }
        assert(parts[0] == g);
        lemma_read_modifiers_skip(m1, parts, 1);
        assert(parts.skip(1) =~= more);
        assert(all[0] == '_');
        assert(all[1] == text[1] && all[2] == text[2]);
        if text.len() > 3 {
            assert(all[3] == text[3]);
        }
        if text.len() > 4 {
            assert(all[4] == text[4]);
        }
        assert(modifier_at(all, 1));
    }
}

/// The modifiers of an instruction read back as they were set.
pub proof fn lemma_read_modifiers(m: Modifiers)
    ensures
        read_modifiers(
            no_modifiers(),
            modifier_parts(modifiers_text(m), 0, Seq::empty()),
            0,
        ) == Ok::<Modifiers, Seq<char>>(m),
        follows_mnemonic(modifiers_text(m)),
{
    let m1 = Modifiers { resinfo_return_type: m.resinfo_return_type, ..no_modifiers() };
    let m2 = Modifiers { saturate: m.saturate, ..m1 };
    let m3 = Modifiers { test_nonzero: m.test_nonzero, ..m2 };
    let m4 = Modifiers { precise_mask: m.precise_mask, ..m3 };
    let m5 = Modifiers { sync_flags: m.sync_flags, ..m4 };
    let m6 = Modifiers { tex_offsets: m.tex_offsets, ..m5 };
    let m7 = Modifiers { resource_dim: m.resource_dim, ..m6 };
    let m8 = Modifiers { resource_return_type: m.resource_return_type, ..m7 };
    assert(m8 == m);
    lemma_ri(m);
    lemma_sat(m, m1);
    lemma_nz(m, m2);
    lemma_pm(m, m3);
    lemma_sf(m, m4);
    lemma_off(m, m5);
    lemma_res(m, m6);
    lemma_rt(m, m7);
    let e = Seq::<char>::empty();
    assert(modifier_parts(e, 0, e) =~= Seq::empty());
    assert forall|cur: Seq<char>|
        #![trigger modifier_parts(e, 0, cur)]
        modifier_parts(e, 0, cur) == kept(cur) + modifier_parts(e, 0, Seq::empty()) by {
        assert(kept(cur) + Seq::<Seq<char>>::empty() =~= kept(cur));
    }
    let t8 = mod_rt(m);
    lemma_step(t8, e, m7, m8, m);
    assert(t8 + e =~= t8);
    let t7 = mod_res(m) + t8;
    lemma_step(mod_res(m), t8, m6, m7, m);
    let t6 = mod_off(m) + t7;
    lemma_step(mod_off(m), t7, m5, m6, m);
    let t5 = mod_sf(m) + t6;
    lemma_step(mod_sf(m), t6, m4, m5, m);
    let t4 = mod_pm(m) + t5;
    lemma_step(mod_pm(m), t5, m3, m4, m);
    let t3 = mod_nz(m) + t4;
    lemma_step(mod_nz(m), t4, m2, m3, m);
    let t2 = mod_sat(m) + t3;
    lemma_step(mod_sat(m), t3, m1, m2, m);
    lemma_step(mod_ri(m), t2, no_modifiers(), m1, m);
}

/// The words of resource dimension and return types read back as they were, any of
/// them, and set nothing else.
pub proof fn resource_modifiers_read_back(rd: u32, rr: u32)
    ensures
        read_modifiers(
            no_modifiers(),
            modifier_parts(resource_dim_text(rd) + resource_rt_text(rr), 0, Seq::empty()),
            0,
        ) == Ok::<Modifiers, Seq<char>>(
            Modifiers {
                resource_dim: Some(rd),
                resource_return_type: Some(rr),
                ..no_modifiers()
            },
        ),
        read_modifiers(
            no_modifiers(),
            modifier_parts(resource_dim_text(rd), 0, Seq::empty()),
            0,
        ) == Ok::<Modifiers, Seq<char>>(Modifiers { resource_dim: Some(rd), ..no_modifiers() }),
        read_modifiers(
            no_modifiers(),
            modifier_parts(resource_rt_text(rr), 0, Seq::empty()),
            0,
        ) == Ok::<Modifiers, Seq<char>>(
            Modifiers { resource_return_type: Some(rr), ..no_modifiers() },
        ),
{
    let both = Modifiers {
        resource_dim: Some(rd),
        resource_return_type: Some(rr),
        ..no_modifiers()
    };
    let dim = Modifiers { resource_dim: Some(rd), ..no_modifiers() };
    let rt = Modifiers { resource_return_type: Some(rr), ..no_modifiers() };
    lemma_read_modifiers(both);
    lemma_read_modifiers(dim);
    lemma_read_modifiers(rt);
    lemma_resource_text(both);
    lemma_resource_text(dim);
    lemma_resource_text(rt);
    let e = Seq::<char>::empty();
    assert(resource_dim_text(rd) + e =~= resource_dim_text(rd));
    assert(e + resource_rt_text(rr) =~= resource_rt_text(rr));
}

/// The text of modifiers of the resource alone.
proof fn lemma_resource_text(m: Modifiers)
    requires
        m == (Modifiers {
            resource_dim: m.resource_dim,
            resource_return_type: m.resource_return_type,
            ..no_modifiers()
        }),
    ensures
        modifiers_text(m) == mod_res(m) + mod_rt(m),
{
    assert(modifiers_text(m) =~= mod_res(m) + mod_rt(m));
}

} // verus!
