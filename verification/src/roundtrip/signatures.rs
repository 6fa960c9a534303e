//! Signatures read back.

use vstd::prelude::*;

use crate::chunks::signature::{ElementModel, SignatureVersion, version_of};
use crate::grammar::rdef::kv::{value_for, word_in};
use crate::grammar::signature::{
    all_axes, component_entry, component_types, element_line, element_lines, element_name,
    mask_entry, mask_name, name_or_number, number_entry, number_of, precision_entry, precision_note,
    precisions, read_element, read_elements, read_mask, read_sysval, signature_of_lines,
    signature_text, stream_entry, stream_note, sv_note, sysval_entry, system_value_name_text,
};
use crate::grammar::tables::{NameTable, system_values, table_name, table_value};
use crate::lines::{
    is_clean, lemma_empty_line, lemma_one_line, lemma_text_lines_concat, text_lines, words,
};
use crate::numerals::{
    dec_text, digits_value, is_lower_digit, lemma_number_text, number_reads_back,
    padded_hex_reads_back, parse_nat,
};
use crate::roundtrip::clean::{is_plain_char, lemma_number_inked};
use crate::roundtrip::names::{is_name_char, is_word, is_word_char};
use crate::roundtrip::operands::lemma_mask;
use crate::roundtrip::tables::{keyed, lemma_keyed_name, lemma_table_entry};
use crate::roundtrip::words::{lemma_tagged, lemma_words_spaced, solid, spaced, tagged};
use crate::text::{is_white, lacks, starts_with, strip_prefix};

verus! {

// ---------------------------------------------------------------------------
// Names and numbers
// ---------------------------------------------------------------------------

/// What does not begin with a digit is no number.
proof fn lemma_no_number(s: Seq<char>, max: nat)
    requires
        s.len() > 0,
        is_name_char(s[0]),
    ensures
        parse_nat(s, 10, max) is None,
        word_in(s, 10) is None,
{
    lemma_no_digits(s);
}

proof fn lemma_no_digits(s: Seq<char>)
    requires
        s.len() > 0,
        is_name_char(s[0]),
    ensures
        digits_value(s, 10) is None,
    decreases s.len(),
{
    if s.len() > 1 {
        assert(s.drop_last()[0] == s[0]);
        lemma_no_digits(s.drop_last());
    }
}

/// Whether every name of the table is a word that begins with a letter.
pub open spec fn lettered(t: NameTable) -> bool {
    forall|i: int| 0 <= i < t.len() ==> is_word(#[trigger] t[i].0) && is_name_char(t[i].0[0])
}

/// A text that is no name of the table has no number in it.
proof fn lemma_no_entry(t: NameTable, s: Seq<char>)
    requires
        forall|i: int| 0 <= i < t.len() ==> #[trigger] t[i].0 != s,
    ensures
        table_value(t, s) is None,
    decreases t.len(),
{
    if t.len() > 0 {
        assert(t[0].0 != s);
        let u = t.skip(1);
        assert forall|i: int| 0 <= i < u.len() implies #[trigger] u[i].0 != s by {
            assert(t[i + 1].0 != s);
        }
        lemma_no_entry(u, s);
    }
}

/// A number is no name of a table.
pub proof fn lemma_number_is_no_name(t: NameTable, v: u32)
    requires
        lettered(t),
    ensures
        table_value(t, dec_text(v as nat)) is None,
{
    let d = dec_text(v as nat);
    lemma_number_text(v as nat, 10);
    assert(is_lower_digit(d[0], 10));
    assert forall|i: int| 0 <= i < t.len() implies #[trigger] t[i].0 != d by {
        assert(is_name_char(t[i].0[0]));
    }
    lemma_no_entry(t, d);
}

/// A name or a number of a table reads back, and is a word.
proof fn lemma_name_or_number(t: NameTable, key: spec_fn(Seq<char>) -> u32, v: u32)
    requires
        keyed(t, key),
        lettered(t),
    ensures
        number_of(t, name_or_number(t, v)) == Some(v),
        solid(name_or_number(t, v)),
{
    lemma_keyed_name(t, key, v);
    lemma_table_entry(t, v);
    match table_name(t, v) {
        Some(n) => {
            let i = choose|i: int| 0 <= i < t.len() && t[i].0 == n;
            assert(is_word(t[i].0));
            lemma_word_solid(n);
        },
        None => {
            number_reads_back(v as nat, 10, 0xffff_ffff);
            lemma_number_is_no_name(t, v);
            lemma_number_solid(v as nat);
        },
    }
}

/// Names are words of a line.
proof fn lemma_word_solid(s: Seq<char>)
    requires
        is_word(s),
    ensures
        solid(s),
{
    assert forall|i: int| 0 <= i < s.len() implies !is_white(#[trigger] s[i]) by {
        assert(is_word_char(s[i]));
    }
}

/// Numerals are words of a line.
pub proof fn lemma_number_solid(n: nat)
    ensures
        solid(dec_text(n)),
{
    lemma_number_inked(n);
    let d = dec_text(n);
    assert forall|i: int| 0 <= i < d.len() implies !is_white(#[trigger] d[i]) by {
        assert(is_plain_char(d[i]) && d[i] != ' ');
    }
}

/// The number of a component type, told by a few characters.
#[verifier::opaque]
pub open spec fn component_key(s: Seq<char>) -> u32 {
    if s.len() <= 5 {
        if s.len() <= 4 {
            if s.len() <= 3 {
                2
            } else {
                1
            }
        } else {
            if s[0] <= 'f' {
                3
            } else {
                if s[3] <= '1' {
                    5
                } else {
                    8
                }
            }
        }
    } else {
        if s.len() <= 6 {
            if s[4] <= '1' {
                4
            } else {
                7
            }
        } else {
            if s[0] <= 'f' {
                if s[5] <= '1' {
                    6
                } else {
                    9
                }
            } else {
                0
            }
        }
    }
}

/// The names of component types tell their numbers.
pub proof fn lemma_component_key()
    ensures
        keyed(component_types(), |s: Seq<char>| component_key(s)),
        lettered(component_types()),
{
    reveal(component_key);
    let t = component_types();
    assert forall|i: int| 0 <= i < t.len() implies component_key(#[trigger] t[i].0) == t[i].1 && is_word(
        t[i].0,
    ) && is_name_char(t[i].0[0]) by {
        if i == 0 {
            reveal_strlit("unknown");
        } else if i == 1 {
            reveal_strlit("uint");
        } else if i == 2 {
            reveal_strlit("int");
        } else if i == 3 {
            reveal_strlit("float");
        } else if i == 4 {
            reveal_strlit("uint16");
        } else if i == 5 {
            reveal_strlit("int16");
        } else if i == 6 {
            reveal_strlit("float16");
        } else if i == 7 {
            reveal_strlit("uint64");
        } else if i == 8 {
            reveal_strlit("int64");
        } else {
            reveal_strlit("float64");
        }
    }
}

/// The number of a precision, told by a few characters.
#[verifier::opaque]
pub open spec fn precision_key(s: Seq<char>) -> u32 {
    if s[2] <= 'n' {
        if s[5] <= 'f' {
            if s.len() <= 6 {
                1
            } else {
                2
            }
        } else {
            if s[5] <= 'i' {
                4
            } else {
                5
            }
        }
    } else {
        if s.len() <= 5 {
            if s[4] <= '0' {
                241
            } else {
                240
            }
        } else {
            3
        }
    }
}

/// The names of precisions tell their numbers.
pub proof fn lemma_precision_key()
    ensures
        keyed(precisions(), |s: Seq<char>| precision_key(s)),
        lettered(precisions()),
{
    reveal(precision_key);
    let t = precisions();
    assert forall|i: int| 0 <= i < t.len() implies precision_key(#[trigger] t[i].0) == t[i].1 && is_word(
        t[i].0,
    ) && is_name_char(t[i].0[0]) by {
        if i == 0 {
            reveal_strlit("min16f");
        } else if i == 1 {
            reveal_strlit("min2_8f");
        } else if i == 2 {
            reveal_strlit("reserved");
        } else if i == 3 {
            reveal_strlit("min16i");
        } else if i == 4 {
            reveal_strlit("min16u");
        } else if i == 5 {
            reveal_strlit("any16");
        } else {
            reveal_strlit("any10");
        }
    }
}

/// The number of a system value, told by a few characters.
#[verifier::opaque]
pub open spec fn system_value_key(s: Seq<char>) -> u32 {
    if s.len() <= 16 {
        if s.len() <= 11 {
            if s.len() <= 8 {
                if s.len() <= 6 {
                    if s.len() <= 5 {
                        65
                    } else {
                        64
                    }
                } else {
                    if s[0] <= 'c' {
                        66
                    } else {
                        1
                    }
                }
            } else {
                if s.len() <= 9 {
                    if s[0] <= 'u' {
                        0
                    } else {
                        6
                    }
                } else {
                    if s[0] <= 'i' {
                        8
                    } else {
                        69
                    }
                }
            }
        } else {
            if s[0] <= 'd' {
                if s.len() <= 13 {
                    if s[1] <= 'l' {
                        2
                    } else {
                        3
                    }
                } else {
                    68
                }
            } else {
                if s.len() <= 12 {
                    if s[0] <= 'p' {
                        7
                    } else {
                        10
                    }
                } else {
                    if s.len() <= 13 {
                        9
                    } else {
                        70
                    }
                }
            }
        }
    } else {
        if s[5] <= 'Q' {
            if s.len() <= 26 {
                if s[5] <= 'L' {
                    if s.len() <= 25 {
                        21
                    } else {
                        22
                    }
                } else {
                    if s[9] <= 'U' {
                        15
                    } else {
                        16
                    }
                }
            } else {
                if s[9] <= 'U' {
                    if s[12] <= '0' {
                        11
                    } else {
                        13
                    }
                } else {
                    if s[12] <= '0' {
                        12
                    } else {
                        14
                    }
                }
            }
        } else {
            if s.len() <= 24 {
                if s.len() <= 19 {
                    67
                } else {
                    if s.len() <= 20 {
                        5
                    } else {
                        20
                    }
                }
            } else {
                if s[8] <= 'V' {
                    if s[8] <= 'U' {
                        17
                    } else {
                        18
                    }
                } else {
                    if s.len() <= 25 {
                        4
                    } else {
                        19
                    }
                }
            }
        }
    }
}

/// The names of system values tell their numbers.
pub proof fn lemma_system_value_key()
    ensures
        keyed(system_values(), |s: Seq<char>| system_value_key(s)),
        lettered(system_values()),
{
    reveal(system_value_key);
    let t = system_values();
    assert forall|i: int| 0 <= i < t.len() implies system_value_key(#[trigger] t[i].0) == t[i].1 && is_word(
        t[i].0,
    ) && is_name_char(t[i].0[0]) by {
        if i == 0 {
            reveal_strlit("undefined");
        } else if i == 1 {
            reveal_strlit("position");
        } else if i == 2 {
            reveal_strlit("clip_distance");
        } else if i == 3 {
            reveal_strlit("cull_distance");
        } else if i == 4 {
            reveal_strlit("render_target_array_index");
        } else if i == 5 {
            reveal_strlit("viewport_array_index");
        } else if i == 6 {
            reveal_strlit("vertex_id");
        } else if i == 7 {
            reveal_strlit("primitive_id");
        } else if i == 8 {
            reveal_strlit("instance_id");
        } else if i == 9 {
            reveal_strlit("is_front_face");
        } else if i == 10 {
            reveal_strlit("sample_index");
        } else if i == 11 {
            reveal_strlit("finalQuadUeq0EdgeTessFactor");
        } else if i == 12 {
            reveal_strlit("finalQuadVeq0EdgeTessFactor");
        } else if i == 13 {
            reveal_strlit("finalQuadUeq1EdgeTessFactor");
        } else if i == 14 {
            reveal_strlit("finalQuadVeq1EdgeTessFactor");
        } else if i == 15 {
            reveal_strlit("finalQuadUInsideTessFactor");
        } else if i == 16 {
            reveal_strlit("finalQuadVInsideTessFactor");
        } else if i == 17 {
            reveal_strlit("finalTriUeq0EdgeTessFactor");
        } else if i == 18 {
            reveal_strlit("finalTriVeq0EdgeTessFactor");
        } else if i == 19 {
            reveal_strlit("finalTriWeq0EdgeTessFactor");
        } else if i == 20 {
            reveal_strlit("finalTriInsideTessFactor");
        } else if i == 21 {
            reveal_strlit("finalLineDetailTessFactor");
        } else if i == 22 {
            reveal_strlit("finalLineDensityTessFactor");
        } else if i == 23 {
            reveal_strlit("target");
        } else if i == 24 {
            reveal_strlit("depth");
        } else if i == 25 {
            reveal_strlit("coverage");
        } else if i == 26 {
            reveal_strlit("depth_greater_equal");
        } else if i == 27 {
            reveal_strlit("depth_less_equal");
        } else if i == 28 {
            reveal_strlit("stencil_ref");
        } else {
            reveal_strlit("inner_coverage");
        }
    }
}

/// A system value that is not nought reads back, and is a word.
proof fn lemma_sysval(v: u32)
    requires
        v != 0,
    ensures
        read_sysval(system_value_name_text(v)) == Some(v),
        solid(system_value_name_text(v)),
{
    let t = system_values();
    let key = |s: Seq<char>| system_value_key(s);
    lemma_system_value_key();
    lemma_keyed_name(t, key, v);
    lemma_table_entry(t, v);
    lemma_number_solid(v as nat);
    number_reads_back(v as nat, 10, 0xffff_ffff);
    match table_name(t, v) {
        Some(n) => {
            let i = choose|i: int| 0 <= i < t.len() && t[i].0 == n;
            assert(is_word(t[i].0) && is_name_char(t[i].0[0]));
            lemma_word_solid(n);
            lemma_no_number(n, 0xffff_ffff);
        },
        None => {},
    }
}

/// A mask without its upper bits is small.
pub proof fn lemma_small_mask(m: u8)
    requires
        m & 0xf0 == 0,
    ensures
        m < 16,
{
    assert(m < 16) by (bit_vector)
        requires
            m & 0xf0 == 0,
    ;
}

/// A mask reads back, and is a word.
proof fn lemma_mask_name(m: u8)
    ensures
        read_mask(mask_name(m)) == Some(m),
        solid(mask_name(m)),
{
    reveal_strlit(".");
    reveal_strlit("0");
    reveal_strlit("none");
    assert("none"@[0] == 'n');
    let s = mask_name(m);
    if m == 0 {
        assert(s[0] == '0');
        assert(!all_axes(s)) by {
            assert(s[0] == '0');
        }
        crate::roundtrip::hex::lemma_digit_char(0);
        assert(s =~= crate::numerals::number_text(0, 16)) by {
            reveal_with_fuel(crate::numerals::number_text, 1);
        }
        number_reads_back(0, 16, 0xff);
        lemma_not_dotted(s);
    } else if m & 0xf0 != 0 {
        padded_hex_reads_back(m as nat, 2, 0xff);
        assert(is_lower_digit(s[0], 16));
        assert(!all_axes(s)) by {
            assert(crate::grammar::tables::axis_value(s[0]) is None);
        }
        lemma_not_dotted(s);
        assert forall|i: int| 0 <= i < s.len() implies !is_white(#[trigger] s[i]) by {
            assert(is_lower_digit(s[i], 16));
        }
    } else {
        lemma_small_mask(m);
        lemma_mask(m);
        if s.len() == 0 {
            assert(crate::grammar::shex::reading::mask_of(s) == 0);
        }
        assert(crate::grammar::tables::axis_value(s[0]) is Some);
        lemma_not_dotted(s);
        assert forall|i: int| 0 <= i < s.len() implies !is_white(#[trigger] s[i]) by {
            assert(crate::grammar::tables::axis_value(s[i]) is Some);
        }
    }
}

/// A mask reads back, and where it is written in letters, it does so behind a dot
/// too.
pub proof fn mask_reads_back(m: u8)
    ensures
        read_mask(mask_name(m)) == Some(m),
        all_axes(mask_name(m)) ==> read_mask(seq!['.'] + mask_name(m)) == Some(m),
{
    lemma_mask_name(m);
    reveal_strlit(".");
    reveal_strlit("none");
    let s = mask_name(m);
    let d = seq!['.'] + s;
    assert(d.take(1) =~= "."@);
    assert(d.skip(1) =~= s);
    assert("none"@[0] == 'n' && d[0] == '.');
    if all_axes(s) {
        assert(crate::grammar::tables::axis_value(s[0]) is Some);
        lemma_not_dotted(s);
    }
}

proof fn lemma_not_dotted(s: Seq<char>)
    requires
        s.len() > 0,
        s[0] != '.',
    ensures
        strip_prefix(s, "."@) is None,
{
    reveal_strlit(".");
    if starts_with(s, "."@) {
        assert(s.take(1)[0] == '.');
    }
}

// ---------------------------------------------------------------------------
// Words of a line
// ---------------------------------------------------------------------------

/// Keys and their values.
pub type Tags = Seq<(Seq<char>, Seq<char>)>;

/// The value of the last tag with that key.
pub open spec fn lookup(ps: Tags, key: Seq<char>) -> Option<Seq<char>>
    decreases ps.len(),
{
    if ps.len() == 0 {
        None
    } else if ps.last().0 == key {
        Some(ps.last().1)
    } else {
        lookup(ps.drop_last(), key)
    }
}

/// Looking up after one more tag.
pub proof fn lemma_lookup_push(ps: Tags, k: Seq<char>, v: Seq<char>)
    ensures
        forall|key: Seq<char>|
            #![trigger lookup(ps.push((k, v)), key)]
            lookup(ps.push((k, v)), key) == (if k == key {
                Some(v)
            } else {
                lookup(ps, key)
            }),
{
    assert(ps.push((k, v)).drop_last() =~= ps);
}

/// A name and the tags behind it.
pub open spec fn tag_words(name: Seq<char>, ps: Tags) -> Seq<Seq<char>> {
    seq![name] + Seq::new(ps.len(), |i: int| tagged(ps[i].0, ps[i].1))
}

/// Whether keys hold no equals sign and the tags are words.
pub open spec fn good_tags(ps: Tags) -> bool {
    forall|i: int|
        0 <= i < ps.len() ==> lacks((#[trigger] ps[i]).0, '=') && solid(tagged(ps[i].0, ps[i].1))
}

/// The value of a key among the words of a line.
pub proof fn lemma_lookup(name: Seq<char>, ps: Tags, n: int, key: Seq<char>)
    requires
        0 <= n <= ps.len(),
        good_tags(ps),
    ensures
        value_for(tag_words(name, ps), 1, n + 1, key) == lookup(ps.take(n), key),
    decreases n,
{
    let ws = tag_words(name, ps);
    if n > 0 {
        lemma_lookup(name, ps, n - 1, key);
        assert(ws[n] == tagged(ps[n - 1].0, ps[n - 1].1));
        assert(lacks(ps[n - 1].0, '='));
        lemma_tagged(ps[n - 1].0, ps[n - 1].1);
        assert(ps.take(n).drop_last() =~= ps.take(n - 1));
        assert(ps.take(n).last() == ps[n - 1]);
    }
}

/// One more tag behind a line.
proof fn lemma_line_push(name: Seq<char>, ps: Tags, k: Seq<char>, v: Seq<char>)
    ensures
        ({
            let ws = tag_words(name, ps);
            let us = tag_words(name, ps.push((k, v)));
            spaced(us, us.len() as int) == spaced(ws, ws.len() as int) + (seq![' '] + tagged(k, v))
        }),
{
    let ws = tag_words(name, ps);
    let us = tag_words(name, ps.push((k, v)));
    assert(us =~= ws.push(tagged(k, v)));
    lemma_spaced_prefix(ws, us, ws.len() as int);
}

pub proof fn lemma_spaced_prefix(ws: Seq<Seq<char>>, us: Seq<Seq<char>>, n: int)
    requires
        0 <= n <= ws.len(),
        n <= us.len(),
        forall|i: int| 0 <= i < n ==> #[trigger] ws[i] == us[i],
    ensures
        spaced(ws, n) == spaced(us, n),
    decreases n,
{
    if n > 0 {
        assert(ws[0] == us[0]);
        assert(ws[n - 1] == us[n - 1]);
        lemma_spaced_prefix(ws, us, n - 1);
    }
}

/// A tag as it is written behind what came before.
proof fn lemma_tag_shape(x: Seq<char>, lit: Seq<char>, k: Seq<char>, v: Seq<char>)
    requires
        lit == seq![' '] + k + seq!['='],
    ensures
        x + lit + v == x + (seq![' '] + tagged(k, v)),
        x + (lit + v) == x + (seq![' '] + tagged(k, v)),
{
    assert(x + lit + v =~= x + (seq![' '] + tagged(k, v)));
    assert(x + (lit + v) =~= x + (seq![' '] + tagged(k, v)));
}

proof fn lemma_key_texts()
    ensures
        "idx"@ == seq!['i', 'd', 'x'],
        "reg"@ == seq!['r', 'e', 'g'],
        "type"@ == seq!['t', 'y', 'p', 'e'],
        "mask"@ == seq!['m', 'a', 's', 'k'],
        "rw"@ == seq!['r', 'w'],
        "sv"@ == seq!['s', 'v'],
        "stream"@ == seq!['s', 't', 'r', 'e', 'a', 'm'],
        "prec"@ == seq!['p', 'r', 'e', 'c'],
        " idx="@ == seq![' '] + "idx"@ + seq!['='],
        " reg="@ == seq![' '] + "reg"@ + seq!['='],
        " type="@ == seq![' '] + "type"@ + seq!['='],
        " mask="@ == seq![' '] + "mask"@ + seq!['='],
        " rw="@ == seq![' '] + "rw"@ + seq!['='],
        " sv="@ == seq![' '] + "sv"@ + seq!['='],
        " stream="@ == seq![' '] + "stream"@ + seq!['='],
        " prec="@ == seq![' '] + "prec"@ + seq!['='],
{
    reveal_strlit("idx");
    reveal_strlit(" idx=");
    reveal_strlit("reg");
    reveal_strlit(" reg=");
    reveal_strlit("type");
    reveal_strlit(" type=");
    reveal_strlit("mask");
    reveal_strlit(" mask=");
    reveal_strlit("rw");
    reveal_strlit(" rw=");
    reveal_strlit("sv");
    reveal_strlit(" sv=");
    reveal_strlit("stream");
    reveal_strlit(" stream=");
    reveal_strlit("prec");
    reveal_strlit(" prec=");
    assert("idx"@ =~= seq!['i', 'd', 'x']);
    assert(" idx="@ =~= seq![' '] + "idx"@ + seq!['=']);
    assert("reg"@ =~= seq!['r', 'e', 'g']);
    assert(" reg="@ =~= seq![' '] + "reg"@ + seq!['=']);
    assert("type"@ =~= seq!['t', 'y', 'p', 'e']);
    assert(" type="@ =~= seq![' '] + "type"@ + seq!['=']);
    assert("mask"@ =~= seq!['m', 'a', 's', 'k']);
    assert(" mask="@ =~= seq![' '] + "mask"@ + seq!['=']);
    assert("rw"@ =~= seq!['r', 'w']);
    assert(" rw="@ =~= seq![' '] + "rw"@ + seq!['=']);
    assert("sv"@ =~= seq!['s', 'v']);
    assert(" sv="@ =~= seq![' '] + "sv"@ + seq!['=']);
    assert("stream"@ =~= seq!['s', 't', 'r', 'e', 'a', 'm']);
    assert(" stream="@ =~= seq![' '] + "stream"@ + seq!['=']);
    assert("prec"@ =~= seq!['p', 'r', 'e', 'c']);
    assert(" prec="@ =~= seq![' '] + "prec"@ + seq!['=']);
}

/// The keys are different.
proof fn lemma_keys_differ()
    ensures
        "idx"@ != "reg"@,
        "idx"@ != "type"@,
        "idx"@ != "mask"@,
        "idx"@ != "rw"@,
        "idx"@ != "sv"@,
        "idx"@ != "stream"@,
        "idx"@ != "prec"@,
        "reg"@ != "type"@,
        "reg"@ != "mask"@,
        "reg"@ != "rw"@,
        "reg"@ != "sv"@,
        "reg"@ != "stream"@,
        "reg"@ != "prec"@,
        "type"@ != "mask"@,
        "type"@ != "rw"@,
        "type"@ != "sv"@,
        "type"@ != "stream"@,
        "type"@ != "prec"@,
        "mask"@ != "rw"@,
        "mask"@ != "sv"@,
        "mask"@ != "stream"@,
        "mask"@ != "prec"@,
        "rw"@ != "sv"@,
        "rw"@ != "stream"@,
        "rw"@ != "prec"@,
        "sv"@ != "stream"@,
        "sv"@ != "prec"@,
        "stream"@ != "prec"@,
{
    lemma_key_texts();
    assert("idx"@[0] == 'i' && "reg"@[0] == 'r' && "type"@[0] == 't' && "mask"@[0] == 'm');
    assert("rw"@[0] == 'r' && "sv"@[0] == 's' && "stream"@[0] == 's' && "prec"@[0] == 'p');
    assert("reg"@.len() == 3 && "rw"@.len() == 2 && "sv"@.len() == 2 && "stream"@.len() == 6);
}

// ---------------------------------------------------------------------------
// Elements
// ---------------------------------------------------------------------------

/// Whether an element can be written in a chunk of that version: its name is one
/// word other than a dash, or empty, and it has the fields that the version has.
pub open spec fn valid_element(e: ElementModel, v: SignatureVersion) -> bool {
    &&& e.semantic_name.len() == 0 || (solid(e.semantic_name) && e.semantic_name != "-"@)
    &&& e.stream is Some == v.streams()
    &&& e.min_precision is Some == v.precisions()
}

/// The tags of an element that are always written.
pub open spec fn fixed_tags(e: ElementModel) -> Tags {
    Tags::empty().push(("idx"@, dec_text(e.semantic_index as nat))).push(
        ("reg"@, dec_text(e.register as nat)),
    ).push(("type"@, name_or_number(component_types(), e.component_type))).push(
        ("mask"@, mask_name(e.mask)),
    ).push(("rw"@, mask_name(e.rw_mask)))
}

/// With the system value, where there is one.
pub open spec fn sv_tags(e: ElementModel) -> Tags {
    if e.system_value != 0 {
        fixed_tags(e).push(("sv"@, system_value_name_text(e.system_value)))
    } else {
        fixed_tags(e)
    }
}

/// Whether the stream is written.
pub open spec fn has_stream(e: ElementModel, v: SignatureVersion) -> bool {
    v.streams() && e.stream is Some && e.stream->0 != 0
}

/// With the stream, where it is written.
pub open spec fn stream_tags(e: ElementModel, v: SignatureVersion) -> Tags {
    if has_stream(e, v) {
        sv_tags(e).push(("stream"@, dec_text(e.stream->0 as nat)))
    } else {
        sv_tags(e)
    }
}

/// Whether the precision is written.
pub open spec fn has_precision(e: ElementModel, v: SignatureVersion) -> bool {
    v.precisions() && e.min_precision is Some && e.min_precision->0.value != 0
}

/// All tags of an element.
pub open spec fn element_tags(e: ElementModel, v: SignatureVersion) -> Tags {
    if has_precision(e, v) {
        stream_tags(e, v).push(
            ("prec"@, name_or_number(precisions(), e.min_precision->0.value)),
        )
    } else {
        stream_tags(e, v)
    }
}

/// A key and a value that are words make a tag that is one.
pub proof fn lemma_good_push(ps: Tags, k: Seq<char>, v: Seq<char>)
    requires
        good_tags(ps),
        lacks(k, '='),
        solid(k),
        solid(v),
    ensures
        good_tags(ps.push((k, v))),
{
    let t = tagged(k, v);
    assert forall|i: int| 0 <= i < t.len() implies !is_white(#[trigger] t[i]) by {
        if i < k.len() {
            assert(!is_white(k[i]));
        } else if i > k.len() {
            assert(!is_white(v[i - k.len() - 1]));
        }
    }
    let qs = ps.push((k, v));
    assert forall|i: int| 0 <= i < qs.len() implies lacks((#[trigger] qs[i]).0, '=') && solid(
        tagged(qs[i].0, qs[i].1),
    ) by {
        if i < ps.len() {
            assert(qs[i] == ps[i]);
        }
    }
}

proof fn lemma_good_tags(e: ElementModel, v: SignatureVersion)
    requires
        valid_element(e, v),
    ensures
        good_tags(element_tags(e, v)),
{
    lemma_key_texts();
    let t0 = Tags::empty();
    lemma_number_solid(e.semantic_index as nat);
    lemma_number_solid(e.register as nat);
    let ckey = |s: Seq<char>| component_key(s);
    lemma_component_key();
    lemma_name_or_number(component_types(), ckey, e.component_type);
    lemma_mask_name(e.mask);
    lemma_mask_name(e.rw_mask);
    lemma_good_push(t0, "idx"@, dec_text(e.semantic_index as nat));
    let t1 = t0.push(("idx"@, dec_text(e.semantic_index as nat)));
    lemma_good_push(t1, "reg"@, dec_text(e.register as nat));
    let t2 = t1.push(("reg"@, dec_text(e.register as nat)));
    lemma_good_push(t2, "type"@, name_or_number(component_types(), e.component_type));
    let t3 = t2.push(("type"@, name_or_number(component_types(), e.component_type)));
    lemma_good_push(t3, "mask"@, mask_name(e.mask));
    let t4 = t3.push(("mask"@, mask_name(e.mask)));
    lemma_good_push(t4, "rw"@, mask_name(e.rw_mask));
    if e.system_value != 0 {
        lemma_sysval(e.system_value);
        lemma_good_push(fixed_tags(e), "sv"@, system_value_name_text(e.system_value));
    }
    if has_stream(e, v) {
        lemma_number_solid(e.stream->0 as nat);
        lemma_good_push(sv_tags(e), "stream"@, dec_text(e.stream->0 as nat));
    }
    if has_precision(e, v) {
        let pkey = |s: Seq<char>| precision_key(s);
        lemma_precision_key();
        lemma_name_or_number(precisions(), pkey, e.min_precision->0.value);
        lemma_good_push(
            stream_tags(e, v),
            "prec"@,
            name_or_number(precisions(), e.min_precision->0.value),
        );
    }
}

/// The tags that are always written, as they are written.
proof fn lemma_fixed_line(e: ElementModel)
    ensures
        ({
            let ws = tag_words(element_name(e), fixed_tags(e));
            spaced(ws, ws.len() as int) == element_name(e) + " idx="@ + dec_text(
                e.semantic_index as nat,
            ) + " reg="@ + dec_text(e.register as nat) + " type="@ + name_or_number(
                component_types(),
                e.component_type,
            ) + " mask="@ + mask_name(e.mask) + " rw="@ + mask_name(e.rw_mask)
        }),
{
    lemma_key_texts();
    let n = element_name(e);
    let i = dec_text(e.semantic_index as nat);
    let r = dec_text(e.register as nat);
    let c = name_or_number(component_types(), e.component_type);
    let m = mask_name(e.mask);
    let w = mask_name(e.rw_mask);
    let t0 = Tags::empty();
    let t1 = t0.push(("idx"@, i));
    let t2 = t1.push(("reg"@, r));
    let t3 = t2.push(("type"@, c));
    let t4 = t3.push(("mask"@, m));
    assert(tag_words(n, t0) =~= seq![n]);
    lemma_line_push(n, t0, "idx"@, i);
    lemma_line_push(n, t1, "reg"@, r);
    lemma_line_push(n, t2, "type"@, c);
    lemma_line_push(n, t3, "mask"@, m);
    lemma_line_push(n, t4, "rw"@, w);
    let x1 = n + " idx="@ + i;
    let x2 = x1 + " reg="@ + r;
    let x3 = x2 + " type="@ + c;
    let x4 = x3 + " mask="@ + m;
    lemma_tag_shape(n, " idx="@, "idx"@, i);
    lemma_tag_shape(x1, " reg="@, "reg"@, r);
    lemma_tag_shape(x2, " type="@, "type"@, c);
    lemma_tag_shape(x3, " mask="@, "mask"@, m);
    lemma_tag_shape(x4, " rw="@, "rw"@, w);
}

/// The line of an element is its name and its tags.
proof fn lemma_element_line(e: ElementModel, v: SignatureVersion)
    requires
        valid_element(e, v),
    ensures
        ({
            let ws = tag_words(element_name(e), element_tags(e, v));
            element_line(e, v) == spaced(ws, ws.len() as int)
        }),
{
    lemma_key_texts();
    lemma_fixed_line(e);
    let n = element_name(e);
    let x0 = {
        let ws = tag_words(n, fixed_tags(e));
        spaced(ws, ws.len() as int)
    };
    let x1 = x0 + sv_note(e.system_value);
    if e.system_value != 0 {
        let t = system_value_name_text(e.system_value);
        lemma_line_push(n, fixed_tags(e), "sv"@, t);
        lemma_tag_shape(x0, " sv="@, "sv"@, t);
    } else {
        assert(x1 =~= x0);
    }
    let x2 = x1 + stream_note(e, v);
    if has_stream(e, v) {
        let t = dec_text(e.stream->0 as nat);
        lemma_line_push(n, sv_tags(e), "stream"@, t);
        lemma_tag_shape(x1, " stream="@, "stream"@, t);
    } else {
        assert(x2 =~= x1);
    }
    let x3 = x2 + precision_note(e, v);
    if has_precision(e, v) {
        let t = name_or_number(precisions(), e.min_precision->0.value);
        lemma_line_push(n, stream_tags(e, v), "prec"@, t);
        lemma_tag_shape(x2, " prec="@, "prec"@, t);
    } else {
        assert(x3 =~= x2);
    }
}

/// What the tags say for each key.
proof fn lemma_element_lookup(e: ElementModel, v: SignatureVersion)
    requires
        valid_element(e, v),
    ensures
        ({
            let ps = element_tags(e, v);
            &&& lookup(ps, "idx"@) == Some(dec_text(e.semantic_index as nat))
            &&& lookup(ps, "reg"@) == Some(dec_text(e.register as nat))
            &&& lookup(ps, "type"@) == Some(name_or_number(component_types(), e.component_type))
            &&& lookup(ps, "mask"@) == Some(mask_name(e.mask))
            &&& lookup(ps, "rw"@) == Some(mask_name(e.rw_mask))
            &&& lookup(ps, "sv"@) == (if e.system_value != 0 {
                Some(system_value_name_text(e.system_value))
            } else {
                None
            })
            &&& lookup(ps, "stream"@) == (if has_stream(e, v) {
                Some(dec_text(e.stream->0 as nat))
            } else {
                None
            })
            &&& lookup(ps, "prec"@) == (if has_precision(e, v) {
                Some(name_or_number(precisions(), e.min_precision->0.value))
            } else {
                None
            })
        }),
{
    lemma_keys_differ();
    let i = dec_text(e.semantic_index as nat);
    let r = dec_text(e.register as nat);
    let c = name_or_number(component_types(), e.component_type);
    let m = mask_name(e.mask);
    let w = mask_name(e.rw_mask);
    let t0 = Tags::empty();
    let t1 = t0.push(("idx"@, i));
    let t2 = t1.push(("reg"@, r));
    let t3 = t2.push(("type"@, c));
    let t4 = t3.push(("mask"@, m));
    lemma_lookup_push(t0, "idx"@, i);
    lemma_lookup_push(t1, "reg"@, r);
    lemma_lookup_push(t2, "type"@, c);
    lemma_lookup_push(t3, "mask"@, m);
    lemma_lookup_push(t4, "rw"@, w);
    if e.system_value != 0 {
        lemma_lookup_push(fixed_tags(e), "sv"@, system_value_name_text(e.system_value));
    }
    if has_stream(e, v) {
        lemma_lookup_push(sv_tags(e), "stream"@, dec_text(e.stream->0 as nat));
    }
    if has_precision(e, v) {
        lemma_lookup_push(
            stream_tags(e, v),
            "prec"@,
            name_or_number(precisions(), e.min_precision->0.value),
        );
    }
}

/// An element reads back from its words.
proof fn lemma_read_element(e: ElementModel, v: SignatureVersion)
    requires
        valid_element(e, v),
    ensures
        read_element(tag_words(element_name(e), element_tags(e, v)), v) == Some(e),
{
    let ps = element_tags(e, v);
    let ws = tag_words(element_name(e), ps);
    let n = ps.len() as int;
    lemma_good_tags(e, v);
    lemma_element_lookup(e, v);
    assert(ps.take(n) =~= ps);
    lemma_lookup(element_name(e), ps, n, "idx"@);
    lemma_lookup(element_name(e), ps, n, "reg"@);
    lemma_lookup(element_name(e), ps, n, "type"@);
    lemma_lookup(element_name(e), ps, n, "mask"@);
    lemma_lookup(element_name(e), ps, n, "rw"@);
    lemma_lookup(element_name(e), ps, n, "sv"@);
    lemma_lookup(element_name(e), ps, n, "stream"@);
    lemma_lookup(element_name(e), ps, n, "prec"@);
    assert(ws.len() == n + 1);
    number_reads_back(e.semantic_index as nat, 10, 0xffff_ffff);
    number_reads_back(e.register as nat, 10, 0xffff_ffff);
    let ckey = |s: Seq<char>| component_key(s);
    lemma_component_key();
    lemma_name_or_number(component_types(), ckey, e.component_type);
    lemma_mask_name(e.mask);
    lemma_mask_name(e.rw_mask);
    if e.system_value != 0 {
        lemma_sysval(e.system_value);
    }
    if has_stream(e, v) {
        number_reads_back(e.stream->0 as nat, 10, 0xffff_ffff);
    }
    if has_precision(e, v) {
        let pkey = |s: Seq<char>| precision_key(s);
        lemma_precision_key();
        lemma_name_or_number(precisions(), pkey, e.min_precision->0.value);
    }
    assert(number_entry(ws, "idx"@) == Some(e.semantic_index));
    assert(number_entry(ws, "reg"@) == Some(e.register));
    assert(component_entry(ws) == Some(e.component_type));
    assert(mask_entry(ws, "mask"@) == Some(e.mask));
    assert(mask_entry(ws, "rw"@) == Some(e.rw_mask));
    assert(sysval_entry(ws) == Some(e.system_value));
    assert(stream_entry(ws, v) == Some(e.stream));
    assert(precision_entry(ws, v) == Some(e.min_precision));
    reveal_strlit("-");
    if e.semantic_name.len() == 0 {
        assert(e.semantic_name =~= Seq::empty());
    }
}

/// An element is written on a clean line, and reads back from it.
proof fn lemma_element(e: ElementModel, v: SignatureVersion)
    requires
        valid_element(e, v),
    ensures
        is_clean(element_line(e, v), false),
        read_element(words(element_line(e, v)), v) == Some(e),
{
    let ps = element_tags(e, v);
    let ws = tag_words(element_name(e), ps);
    lemma_good_tags(e, v);
    lemma_element_line(e, v);
    reveal_strlit("-");
    assert(solid(element_name(e)));
    assert forall|i: int| 0 <= i < ws.len() implies solid(#[trigger] ws[i]) by {
        if i > 0 {
            assert(ws[i] == tagged(ps[i - 1].0, ps[i - 1].1));
        }
    }
    lemma_words_spaced(ws, ws.len() as int);
    assert(ws.take(ws.len() as int) =~= ws);
    lemma_read_element(e, v);
}

/// The lines of the first `n` elements.
proof fn lemma_element_lines(es: Seq<ElementModel>, v: SignatureVersion, n: int)
    requires
        0 <= n <= es.len(),
        forall|i: int| 0 <= i < es.len() ==> valid_element(#[trigger] es[i], v),
    ensures
        ({
            let ls = text_lines(element_lines(es, v, n), false);
            &&& ls.len() == n
            &&& forall|i: int| 0 <= i < n ==> #[trigger] ls[i] == element_line(es[i], v)
        }),
        element_lines(es, v, n).len() == 0 || element_lines(es, v, n).last() == '\n',
    decreases n,
{
    if n == 0 {
        lemma_empty_line(false);
    } else {
        lemma_element_lines(es, v, n - 1);
        assert(valid_element(es[n - 1], v));
        let line = element_line(es[n - 1], v);
        lemma_element(es[n - 1], v);
        lemma_one_line(line, false);
        let a = element_lines(es, v, n - 1);
        lemma_text_lines_concat(a, line.push('\n'), false);
        let before = text_lines(a, false);
        let ls = text_lines(element_lines(es, v, n), false);
        assert(ls == before + seq![line]);
        assert((a + line.push('\n')).last() == '\n');
        assert forall|i: int| 0 <= i < n implies #[trigger] ls[i] == element_line(es[i], v) by {
            if i < n - 1 {
                assert(ls[i] == before[i]);
            }
        }
    }
}

proof fn lemma_read_elements(
    ls: Seq<Seq<char>>,
    es: Seq<ElementModel>,
    v: SignatureVersion,
    n: int,
)
    requires
        0 <= n <= es.len(),
        ls.len() == es.len(),
        forall|i: int| 0 <= i < es.len() ==> valid_element(#[trigger] es[i], v),
        forall|i: int| 0 <= i < ls.len() ==> #[trigger] ls[i] == element_line(es[i], v),
    ensures
        read_elements(ls, v, n) == Some(es.take(n)),
    decreases n,
{
    if n == 0 {
        assert(es.take(0) =~= Seq::empty());
    } else {
        lemma_read_elements(ls, es, v, n - 1);
        assert(valid_element(es[n - 1], v));
        assert(ls[n - 1] == element_line(es[n - 1], v));
        lemma_element(es[n - 1], v);
        assert(es.take(n) =~= es.take(n - 1).push(es[n - 1]));
    }
}

/// A signature written as text reads back as it was. Left out are names that
/// hold white space or are a dash, and elements that lack, or have too much of,
/// what chunks with that code have.
pub proof fn signature_text_reads_back(es: Seq<ElementModel>, fourcc: Seq<u8>)
    requires
        forall|i: int| 0 <= i < es.len() ==> valid_element(#[trigger] es[i], version_of(fourcc)),
    ensures
        signature_of_lines(text_lines(signature_text(es, fourcc), false), fourcc) == Some(es),
{
    let v = version_of(fourcc);
    let n = es.len() as int;
    lemma_element_lines(es, v, n);
    let ls = text_lines(signature_text(es, fourcc), false);
    lemma_read_elements(ls, es, v, n);
    assert(es.take(n) =~= es);
}

} // verus!
