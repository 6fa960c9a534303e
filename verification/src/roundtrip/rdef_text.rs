//! Resource definitions as lines of `key=value` read back.

use vstd::prelude::*;

use crate::chunks::rdef::{
    BindingModel, CBufferModel, MemberModel, RdefModel, TypeModel, VariableModel,
};
use crate::grammar::rdef::kv::{
    add_member, add_var, binding_line, bindings_text, bytes_text, cbuffer_line, cbuffers_text,
    dec_of_key, default_text, first_of, header_text, header_value, hex4_text, hex8_list, hex_of_key,
    member_line, members_text, no_rdef, rdef_item, rdef_line, rdef_lines, rdef_nests, rdef_text,
    read_binding, read_cbuffer, read_default, read_hex0x, read_member, read_rd11, read_slots,
    read_sm5, read_type, read_var, second_of, slots_text, type_nests, type_text, value_of_key,
    var_line, vars_text, word_at_part, word_in, cbuffer_nests,
};
use crate::grammar::shex::reading::word_of_int;
use crate::grammar::shex::text::signed_value;
use crate::lines::{
    is_clean, lemma_empty_line, lemma_split_once_concat, lemma_text_lines_concat,
    lemma_trim_trimmed, split, split_once, text_lines, trim, trim_start, words,
};
use crate::numerals::{
    dec_text, hex_padded, hex_text, int_reads_back, int_text, is_lower_digit, lemma_number_lacks,
    number_reads_back, padded_hex_reads_back, parse_int,
};
use crate::roundtrip::clean::{
    inked, is_plain_char, lemma_int_inked, lemma_number_inked, lemma_padded_inked,
};
use crate::roundtrip::hex::{bytes_read_back, lemma_bytes_text};
use crate::roundtrip::modifiers::{lemma_split_first, lemma_split_four};
use crate::roundtrip::programs::lemma_not_contains;
use crate::roundtrip::signatures::{
    Tags, good_tags, lemma_good_push, lemma_lookup, lemma_lookup_push, lemma_spaced_prefix,
    lookup, tag_words,
};
use crate::roundtrip::words::{lemma_words_spaced, solid, spaced, tagged};
use crate::text::{is_white, lacks, lemma_span_until_concat, starts_with};

verus! {

// ---------------------------------------------------------------------------
// Keys
// ---------------------------------------------------------------------------

/// The number of a key, told by a few characters.
#[verifier::opaque]
pub open spec fn key_number(s: Seq<char>) -> int {
    if s.len() <= 4 {
        if s[0] <= 'r' {
            if s[0] <= 'd' {
                if s.len() <= 3 {
                    2
                } else {
                    if s[0] <= 'b' {
                        11
                    } else {
                        13
                    }
                }
            } else {
                if s[0] <= 'k' {
                    8
                } else {
                    12
                }
            }
        } else {
            if s.len() <= 3 {
                if s[0] <= 's' {
                    16
                } else {
                    17
                }
            } else {
                if s[1] <= 'a' {
                    18
                } else {
                    if s[1] <= 'i' {
                        7
                    } else {
                        4
                    }
                }
            }
        }
    } else {
        if s[0] <= 'f' {
            if s.len() <= 5 {
                if s[0] <= 'c' {
                    if s[1] <= 'l' {
                        10
                    } else {
                        5
                    }
                } else {
                    6
                }
            } else {
                if s.len() <= 7 {
                    19
                } else {
                    14
                }
            }
        } else {
            if s.len() <= 6 {
                if s.len() <= 5 {
                    0
                } else {
                    if s[0] <= 'o' {
                        9
                    } else {
                        1
                    }
                }
            } else {
                if s.len() <= 7 {
                    3
                } else {
                    15
                }
            }
        }
    }
}

/// The keys have different numbers, and are words without an equals sign.
proof fn lemma_keys()
    ensures
        key_number("input"@) == 0,
        solid("input"@),
        lacks("input"@, '='),
        " input="@ == seq![' '] + "input"@ + seq!['='],
        key_number("return"@) == 1,
        solid("return"@),
        lacks("return"@, '='),
        " return="@ == seq![' '] + "return"@ + seq!['='],
        key_number("dim"@) == 2,
        solid("dim"@),
        lacks("dim"@, '='),
        " dim="@ == seq![' '] + "dim"@ + seq!['='],
        key_number("samples"@) == 3,
        solid("samples"@),
        lacks("samples"@, '='),
        " samples="@ == seq![' '] + "samples"@ + seq!['='],
        key_number("slot"@) == 4,
        solid("slot"@),
        lacks("slot"@, '='),
        " slot="@ == seq![' '] + "slot"@ + seq!['='],
        key_number("count"@) == 5,
        solid("count"@),
        lacks("count"@, '='),
        " count="@ == seq![' '] + "count"@ + seq!['='],
        key_number("flags"@) == 6,
        solid("flags"@),
        lacks("flags"@, '='),
        " flags="@ == seq![' '] + "flags"@ + seq!['='],
        key_number("size"@) == 7,
        solid("size"@),
        lacks("size"@, '='),
        " size="@ == seq![' '] + "size"@ + seq!['='],
        key_number("kind"@) == 8,
        solid("kind"@),
        lacks("kind"@, '='),
        " kind="@ == seq![' '] + "kind"@ + seq!['='],
        key_number("offset"@) == 9,
        solid("offset"@),
        lacks("offset"@, '='),
        " offset="@ == seq![' '] + "offset"@ + seq!['='],
        key_number("class"@) == 10,
        solid("class"@),
        lacks("class"@, '='),
        " class="@ == seq![' '] + "class"@ + seq!['='],
        key_number("base"@) == 11,
        solid("base"@),
        lacks("base"@, '='),
        " base="@ == seq![' '] + "base"@ + seq!['='],
        key_number("rows"@) == 12,
        solid("rows"@),
        lacks("rows"@, '='),
        " rows="@ == seq![' '] + "rows"@ + seq!['='],
        key_number("cols"@) == 13,
        solid("cols"@),
        lacks("cols"@, '='),
        " cols="@ == seq![' '] + "cols"@ + seq!['='],
        key_number("elements"@) == 14,
        solid("elements"@),
        lacks("elements"@, '='),
        " elements="@ == seq![' '] + "elements"@ + seq!['='],
        key_number("typename"@) == 15,
        solid("typename"@),
        lacks("typename"@, '='),
        " typename="@ == seq![' '] + "typename"@ + seq!['='],
        key_number("sm5"@) == 16,
        solid("sm5"@),
        lacks("sm5"@, '='),
        " sm5="@ == seq![' '] + "sm5"@ + seq!['='],
        key_number("tex"@) == 17,
        solid("tex"@),
        lacks("tex"@, '='),
        " tex="@ == seq![' '] + "tex"@ + seq!['='],
        key_number("samp"@) == 18,
        solid("samp"@),
        lacks("samp"@, '='),
        " samp="@ == seq![' '] + "samp"@ + seq!['='],
        key_number("default"@) == 19,
        solid("default"@),
        lacks("default"@, '='),
        " default="@ == seq![' '] + "default"@ + seq!['='],
{
    lemma_keys_0();
    lemma_keys_1();
    lemma_keys_2();
    lemma_keys_3();
    lemma_keys_4();
}

proof fn lemma_keys_0()
    ensures
        key_number("input"@) == 0,
        solid("input"@),
        lacks("input"@, '='),
        " input="@ == seq![' '] + "input"@ + seq!['='],
        key_number("return"@) == 1,
        solid("return"@),
        lacks("return"@, '='),
        " return="@ == seq![' '] + "return"@ + seq!['='],
        key_number("dim"@) == 2,
        solid("dim"@),
        lacks("dim"@, '='),
        " dim="@ == seq![' '] + "dim"@ + seq!['='],
        key_number("samples"@) == 3,
        solid("samples"@),
        lacks("samples"@, '='),
        " samples="@ == seq![' '] + "samples"@ + seq!['='],
{
    reveal(key_number);
    reveal_strlit("input");
    reveal_strlit(" input=");
    assert(" input="@ =~= seq![' '] + "input"@ + seq!['=']);
    reveal_strlit("return");
    reveal_strlit(" return=");
    assert(" return="@ =~= seq![' '] + "return"@ + seq!['=']);
    reveal_strlit("dim");
    reveal_strlit(" dim=");
    assert(" dim="@ =~= seq![' '] + "dim"@ + seq!['=']);
    reveal_strlit("samples");
    reveal_strlit(" samples=");
    assert(" samples="@ =~= seq![' '] + "samples"@ + seq!['=']);
}

proof fn lemma_keys_1()
    ensures
        key_number("slot"@) == 4,
        solid("slot"@),
        lacks("slot"@, '='),
        " slot="@ == seq![' '] + "slot"@ + seq!['='],
        key_number("count"@) == 5,
        solid("count"@),
        lacks("count"@, '='),
        " count="@ == seq![' '] + "count"@ + seq!['='],
        key_number("flags"@) == 6,
        solid("flags"@),
        lacks("flags"@, '='),
        " flags="@ == seq![' '] + "flags"@ + seq!['='],
        key_number("size"@) == 7,
        solid("size"@),
        lacks("size"@, '='),
        " size="@ == seq![' '] + "size"@ + seq!['='],
{
    reveal(key_number);
    reveal_strlit("slot");
    reveal_strlit(" slot=");
    assert(" slot="@ =~= seq![' '] + "slot"@ + seq!['=']);
    reveal_strlit("count");
    reveal_strlit(" count=");
    assert(" count="@ =~= seq![' '] + "count"@ + seq!['=']);
    reveal_strlit("flags");
    reveal_strlit(" flags=");
    assert(" flags="@ =~= seq![' '] + "flags"@ + seq!['=']);
    reveal_strlit("size");
    reveal_strlit(" size=");
    assert(" size="@ =~= seq![' '] + "size"@ + seq!['=']);
}

proof fn lemma_keys_2()
    ensures
        key_number("kind"@) == 8,
        solid("kind"@),
        lacks("kind"@, '='),
        " kind="@ == seq![' '] + "kind"@ + seq!['='],
        key_number("offset"@) == 9,
        solid("offset"@),
        lacks("offset"@, '='),
        " offset="@ == seq![' '] + "offset"@ + seq!['='],
        key_number("class"@) == 10,
        solid("class"@),
        lacks("class"@, '='),
        " class="@ == seq![' '] + "class"@ + seq!['='],
        key_number("base"@) == 11,
        solid("base"@),
        lacks("base"@, '='),
        " base="@ == seq![' '] + "base"@ + seq!['='],
{
    reveal(key_number);
    reveal_strlit("kind");
    reveal_strlit(" kind=");
    assert(" kind="@ =~= seq![' '] + "kind"@ + seq!['=']);
    reveal_strlit("offset");
    reveal_strlit(" offset=");
    assert(" offset="@ =~= seq![' '] + "offset"@ + seq!['=']);
    reveal_strlit("class");
    reveal_strlit(" class=");
    assert(" class="@ =~= seq![' '] + "class"@ + seq!['=']);
    reveal_strlit("base");
    reveal_strlit(" base=");
    assert(" base="@ =~= seq![' '] + "base"@ + seq!['=']);
}

proof fn lemma_keys_3()
    ensures
        key_number("rows"@) == 12,
        solid("rows"@),
        lacks("rows"@, '='),
        " rows="@ == seq![' '] + "rows"@ + seq!['='],
        key_number("cols"@) == 13,
        solid("cols"@),
        lacks("cols"@, '='),
        " cols="@ == seq![' '] + "cols"@ + seq!['='],
        key_number("elements"@) == 14,
        solid("elements"@),
        lacks("elements"@, '='),
        " elements="@ == seq![' '] + "elements"@ + seq!['='],
        key_number("typename"@) == 15,
        solid("typename"@),
        lacks("typename"@, '='),
        " typename="@ == seq![' '] + "typename"@ + seq!['='],
{
    reveal(key_number);
    reveal_strlit("rows");
    reveal_strlit(" rows=");
    assert(" rows="@ =~= seq![' '] + "rows"@ + seq!['=']);
    reveal_strlit("cols");
    reveal_strlit(" cols=");
    assert(" cols="@ =~= seq![' '] + "cols"@ + seq!['=']);
    reveal_strlit("elements");
    reveal_strlit(" elements=");
    assert(" elements="@ =~= seq![' '] + "elements"@ + seq!['=']);
    reveal_strlit("typename");
    reveal_strlit(" typename=");
    assert(" typename="@ =~= seq![' '] + "typename"@ + seq!['=']);
}

proof fn lemma_keys_4()
    ensures
        key_number("sm5"@) == 16,
        solid("sm5"@),
        lacks("sm5"@, '='),
        " sm5="@ == seq![' '] + "sm5"@ + seq!['='],
        key_number("tex"@) == 17,
        solid("tex"@),
        lacks("tex"@, '='),
        " tex="@ == seq![' '] + "tex"@ + seq!['='],
        key_number("samp"@) == 18,
        solid("samp"@),
        lacks("samp"@, '='),
        " samp="@ == seq![' '] + "samp"@ + seq!['='],
        key_number("default"@) == 19,
        solid("default"@),
        lacks("default"@, '='),
        " default="@ == seq![' '] + "default"@ + seq!['='],
{
    reveal(key_number);
    reveal_strlit("sm5");
    reveal_strlit(" sm5=");
    assert(" sm5="@ =~= seq![' '] + "sm5"@ + seq!['=']);
    reveal_strlit("tex");
    reveal_strlit(" tex=");
    assert(" tex="@ =~= seq![' '] + "tex"@ + seq!['=']);
    reveal_strlit("samp");
    reveal_strlit(" samp=");
    assert(" samp="@ =~= seq![' '] + "samp"@ + seq!['=']);
    reveal_strlit("default");
    reveal_strlit(" default=");
    assert(" default="@ =~= seq![' '] + "default"@ + seq!['=']);
}

// ---------------------------------------------------------------------------
// Records
// ---------------------------------------------------------------------------

/// The kind of a record, its name and its tags.
pub open spec fn record_words(head: Seq<char>, name: Seq<char>, ps: Tags) -> Seq<Seq<char>> {
    seq![head] + tag_words(name, ps)
}

/// The line of a record.
#[verifier::opaque]
pub open spec fn record(head: Seq<char>, name: Seq<char>, ps: Tags) -> Seq<char> {
    let ws = record_words(head, name, ps);
    spaced(ws, ws.len() as int)
}

proof fn lemma_record_base(head: Seq<char>, name: Seq<char>)
    ensures
        record(head, name, Tags::empty()) == head + seq![' '] + name,
{
    reveal(record);
    let ws = record_words(head, name, Tags::empty());
    assert(ws =~= seq![head, name]);
    reveal_with_fuel(spaced, 3);
    assert(head + (seq![' '] + name) =~= head + seq![' '] + name);
}

/// One more tag behind a record.
proof fn lemma_record_push(head: Seq<char>, name: Seq<char>, ps: Tags, k: Seq<char>, v: Seq<char>)
    ensures
        record(head, name, ps.push((k, v))) == record(head, name, ps) + (seq![' '] + tagged(k, v)),
{
    reveal(record);
    let ws = record_words(head, name, ps);
    let us = record_words(head, name, ps.push((k, v)));
    assert(us =~= ws.push(tagged(k, v)));
    lemma_spaced_prefix(ws, us, ws.len() as int);
}

/// The first word before the others.
proof fn lemma_spaced_first(head: Seq<char>, ws: Seq<Seq<char>>, n: int)
    requires
        0 < n <= ws.len(),
    ensures
        spaced(seq![head] + ws, n + 1) == head + seq![' '] + spaced(ws, n),
    decreases n,
{
    let us = seq![head] + ws;
    if n == 1 {
        reveal_with_fuel(spaced, 3);
        assert(us[1] == ws[0]);
        assert(head + (seq![' '] + ws[0]) =~= head + seq![' '] + ws[0]);
    } else {
        lemma_spaced_first(head, ws, n - 1);
        assert(us[n] == ws[n - 1]);
        assert(head + seq![' '] + spaced(ws, n - 1) + (seq![' '] + ws[n - 1]) =~= head + seq![' ']
            + spaced(ws, n));
    }
}

/// A record is a clean line that is taken apart into its words.
proof fn lemma_record(head: Seq<char>, name: Seq<char>, ps: Tags)
    requires
        solid(head),
        solid(name),
        good_tags(ps),
    ensures
        is_clean(record(head, name, ps), false),
        ({
            let rest = {
                let ws = tag_words(name, ps);
                spaced(ws, ws.len() as int)
            };
            &&& split_once(record(head, name, ps), ' ') == Some((head, rest))
            &&& words(rest) == tag_words(name, ps)
            &&& record(head, name, ps) == head + seq![' '] + rest
        }),
{
    reveal(record);
    let ws = tag_words(name, ps);
    let us = record_words(head, name, ps);
    assert forall|i: int| 0 <= i < ws.len() implies solid(#[trigger] ws[i]) by {
        if i > 0 {
            assert(ws[i] == tagged(ps[i - 1].0, ps[i - 1].1));
        }
    }
    assert forall|i: int| 0 <= i < us.len() implies solid(#[trigger] us[i]) by {
        if i > 0 {
            assert(us[i] == ws[i - 1]);
        }
    }
    lemma_words_spaced(ws, ws.len() as int);
    lemma_words_spaced(us, us.len() as int);
    assert(ws.take(ws.len() as int) =~= ws);
    lemma_spaced_first(head, ws, ws.len() as int);
    assert(lacks(head, ' ')) by {
        assert forall|i: int| 0 <= i < head.len() implies #[trigger] head[i] != ' ' by {
            assert(!is_white(head[i]));
        }
    }
    lemma_not_contains(head, ' ');
    lemma_split_once_concat(head, ' ', spaced(ws, ws.len() as int));
}

/// What a record says for a key.
proof fn lemma_value(name: Seq<char>, ps: Tags)
    requires
        good_tags(ps),
    ensures
        forall|key: Seq<char>|
            #![trigger value_of_key(tag_words(name, ps), key)]
            value_of_key(tag_words(name, ps), key) == lookup(ps, key),
{
    let n = ps.len() as int;
    assert(ps.take(n) =~= ps);
    assert forall|key: Seq<char>|
        #![trigger value_of_key(tag_words(name, ps), key)]
        value_of_key(tag_words(name, ps), key) == lookup(ps, key) by {
        lemma_lookup(name, ps, n, key);
        assert(tag_words(name, ps).len() == n + 1);
    }
}

/// A tag behind what came before, as it is written.
proof fn lemma_grow(x: Seq<char>, a: Seq<char>, lit: Seq<char>, k: Seq<char>, v: Seq<char>)
    requires
        lit == seq![' '] + k + seq!['='],
    ensures
        x + (a + lit + v) == (x + a) + (seq![' '] + tagged(k, v)),
        x + lit + v == x + (seq![' '] + tagged(k, v)),
        x + (lit + v) == x + (seq![' '] + tagged(k, v)),
        x + (a + (lit + v)) == (x + a) + (seq![' '] + tagged(k, v)),
{
    let t = seq![' '] + tagged(k, v);
    assert(lit + v =~= t);
    assert(x + (a + lit + v) =~= (x + a) + t);
    assert(x + lit + v =~= x + t);
    assert(x + (a + (lit + v)) =~= (x + a) + t);
}

/// Numerals as values.
proof fn lemma_number_value(n: u32)
    ensures
        solid(dec_text(n as nat)),
        solid(hex_text(n as nat)),
        word_in(dec_text(n as nat), 10) == Some(n),
        word_in(hex_text(n as nat), 16) == Some(n),
{
    lemma_number_inked(n as nat);
    number_reads_back(n as nat, 10, 0xffff_ffff);
    number_reads_back(n as nat, 16, 0xffff_ffff);
    lemma_inked_solid(dec_text(n as nat));
    lemma_inked_solid(hex_text(n as nat));
}

proof fn lemma_inked_solid(s: Seq<char>)
    requires
        inked(s),
        s.len() > 0,
    ensures
        solid(s),
{
    assert forall|i: int| 0 <= i < s.len() implies !is_white(#[trigger] s[i]) by {
        assert(is_plain_char(s[i]) && s[i] != ' ');
    }
}

/// A line that begins like a record is no header line.
pub proof fn lemma_no_header(rd: RdefModel, line: Seq<char>)
    requires
        line.len() > 0,
        line[0] == 'b' || (line[0] == 'c' && line.len() > 1 && line[1] == 'b') || line[0] == 'm'
            || (line[0] == 'v' && line.len() > 1 && line[1] == 'a'),
    ensures
        rdef_line(rd, line) == rdef_item(rd, line),
{
    reveal(rdef_line);
    reveal_strlit("version");
    reveal_strlit("flags");
    reveal_strlit("creator");
    reveal_strlit("rd11=");
    reveal_strlit("rd11 ");
    lemma_no_key(line, "version"@);
    lemma_no_key(line, "flags"@);
    lemma_no_key(line, "creator"@);
    if starts_with(line, "rd11="@) || starts_with(line, "rd11 "@) {
        assert(line.take(5)[0] == 'r');
    }
}

proof fn lemma_no_key(line: Seq<char>, key: Seq<char>)
    requires
        key.len() >= 2,
        line.len() > 0,
        line[0] != key[0] || (line.len() > 1 && line[1] != key[1]),
    ensures
        header_value(line, key) is None,
{
    if starts_with(line, key.push('=')) {
        let n = key.len() as int + 1;
        assert(line.take(n)[0] == key.push('=')[0]);
        assert(line.take(n)[1] == key.push('=')[1]);
    }
    if starts_with(line, key.push(' ')) {
        let n = key.len() as int + 1;
        assert(line.take(n)[0] == key.push(' ')[0]);
        assert(line.take(n)[1] == key.push(' ')[1]);
    }
}

// ---------------------------------------------------------------------------
// Bindings and buffers
// ---------------------------------------------------------------------------

/// The tags of a binding.
pub open spec fn binding_tags(b: BindingModel) -> Tags {
    Tags::empty().push(("input"@, dec_text(b.input_type as nat))).push(("return"@, dec_text(b.return_type as nat))).push(("dim"@, dec_text(b.dimension as nat))).push(("samples"@, dec_text(b.num_samples as nat))).push(("slot"@, dec_text(b.bind_point as nat))).push(("count"@, dec_text(b.bind_count as nat))).push(("flags"@, hex_text(b.flags as nat)))
}

proof fn lemma_binding_tags(b: BindingModel)
    requires
        solid(b.name),
    ensures
        good_tags(binding_tags(b)),
        binding_line(b) == record("binding"@, b.name, binding_tags(b)),
        lookup(binding_tags(b), "input"@) == Some(dec_text(b.input_type as nat)),
        lookup(binding_tags(b), "return"@) == Some(dec_text(b.return_type as nat)),
        lookup(binding_tags(b), "dim"@) == Some(dec_text(b.dimension as nat)),
        lookup(binding_tags(b), "samples"@) == Some(dec_text(b.num_samples as nat)),
        lookup(binding_tags(b), "slot"@) == Some(dec_text(b.bind_point as nat)),
        lookup(binding_tags(b), "count"@) == Some(dec_text(b.bind_count as nat)),
        lookup(binding_tags(b), "flags"@) == Some(hex_text(b.flags as nat)),
{
    lemma_keys();
    reveal_strlit("binding ");
    reveal_strlit("binding");
    let h = "binding"@;
    let n = b.name;
    assert("binding "@ =~= h + seq![' ']);
    let t0 = Tags::empty();
    let x0 = "binding "@ + n;
    lemma_record_base(h, n);
    assert(x0 =~= h + seq![' '] + n);
    lemma_number_value(b.input_type);
    lemma_good_push(t0, "input"@, dec_text(b.input_type as nat));
    lemma_lookup_push(t0, "input"@, dec_text(b.input_type as nat));
    lemma_record_push(h, n, t0, "input"@, dec_text(b.input_type as nat));
    lemma_grow(x0, Seq::empty(), " input="@, "input"@, dec_text(b.input_type as nat));
    let x1 = x0 + " input="@ + dec_text(b.input_type as nat);
    let t1 = t0.push(("input"@, dec_text(b.input_type as nat)));
    lemma_number_value(b.return_type);
    lemma_good_push(t1, "return"@, dec_text(b.return_type as nat));
    lemma_lookup_push(t1, "return"@, dec_text(b.return_type as nat));
    lemma_record_push(h, n, t1, "return"@, dec_text(b.return_type as nat));
    lemma_grow(x1, Seq::empty(), " return="@, "return"@, dec_text(b.return_type as nat));
    let x2 = x1 + " return="@ + dec_text(b.return_type as nat);
    let t2 = t1.push(("return"@, dec_text(b.return_type as nat)));
    lemma_number_value(b.dimension);
    lemma_good_push(t2, "dim"@, dec_text(b.dimension as nat));
    lemma_lookup_push(t2, "dim"@, dec_text(b.dimension as nat));
    lemma_record_push(h, n, t2, "dim"@, dec_text(b.dimension as nat));
    lemma_grow(x2, Seq::empty(), " dim="@, "dim"@, dec_text(b.dimension as nat));
    let x3 = x2 + " dim="@ + dec_text(b.dimension as nat);
    let t3 = t2.push(("dim"@, dec_text(b.dimension as nat)));
    lemma_number_value(b.num_samples);
    lemma_good_push(t3, "samples"@, dec_text(b.num_samples as nat));
    lemma_lookup_push(t3, "samples"@, dec_text(b.num_samples as nat));
    lemma_record_push(h, n, t3, "samples"@, dec_text(b.num_samples as nat));
    lemma_grow(x3, Seq::empty(), " samples="@, "samples"@, dec_text(b.num_samples as nat));
    let x4 = x3 + " samples="@ + dec_text(b.num_samples as nat);
    let t4 = t3.push(("samples"@, dec_text(b.num_samples as nat)));
    lemma_number_value(b.bind_point);
    lemma_good_push(t4, "slot"@, dec_text(b.bind_point as nat));
    lemma_lookup_push(t4, "slot"@, dec_text(b.bind_point as nat));
    lemma_record_push(h, n, t4, "slot"@, dec_text(b.bind_point as nat));
    lemma_grow(x4, Seq::empty(), " slot="@, "slot"@, dec_text(b.bind_point as nat));
    let x5 = x4 + " slot="@ + dec_text(b.bind_point as nat);
    let t5 = t4.push(("slot"@, dec_text(b.bind_point as nat)));
    lemma_number_value(b.bind_count);
    lemma_good_push(t5, "count"@, dec_text(b.bind_count as nat));
    lemma_lookup_push(t5, "count"@, dec_text(b.bind_count as nat));
    lemma_record_push(h, n, t5, "count"@, dec_text(b.bind_count as nat));
    lemma_grow(x5, Seq::empty(), " count="@, "count"@, dec_text(b.bind_count as nat));
    let x6 = x5 + " count="@ + dec_text(b.bind_count as nat);
    let t6 = t5.push(("count"@, dec_text(b.bind_count as nat)));
    lemma_number_value(b.flags);
    lemma_good_push(t6, "flags"@, hex_text(b.flags as nat));
    lemma_lookup_push(t6, "flags"@, hex_text(b.flags as nat));
    lemma_record_push(h, n, t6, "flags"@, hex_text(b.flags as nat));
    lemma_grow(x6, Seq::empty(), " flags="@, "flags"@, hex_text(b.flags as nat));
    let x7 = x6 + " flags="@ + hex_text(b.flags as nat);
    let t7 = t6.push(("flags"@, hex_text(b.flags as nat)));
}

/// The tags of a constant buffer.
pub open spec fn cbuffer_tags(c: CBufferModel) -> Tags {
    Tags::empty().push(("size"@, dec_text(c.size as nat))).push(("flags"@, hex_text(c.flags as nat))).push(("kind"@, dec_text(c.cb_type as nat)))
}

proof fn lemma_cbuffer_tags(c: CBufferModel)
    requires
        solid(c.name),
    ensures
        good_tags(cbuffer_tags(c)),
        cbuffer_line(c) == record("cbuffer"@, c.name, cbuffer_tags(c)),
        lookup(cbuffer_tags(c), "size"@) == Some(dec_text(c.size as nat)),
        lookup(cbuffer_tags(c), "flags"@) == Some(hex_text(c.flags as nat)),
        lookup(cbuffer_tags(c), "kind"@) == Some(dec_text(c.cb_type as nat)),
{
    lemma_keys();
    reveal_strlit("cbuffer ");
    reveal_strlit("cbuffer");
    let h = "cbuffer"@;
    let n = c.name;
    assert("cbuffer "@ =~= h + seq![' ']);
    let t0 = Tags::empty();
    let x0 = "cbuffer "@ + n;
    lemma_record_base(h, n);
    assert(x0 =~= h + seq![' '] + n);
    lemma_number_value(c.size);
    lemma_good_push(t0, "size"@, dec_text(c.size as nat));
    lemma_lookup_push(t0, "size"@, dec_text(c.size as nat));
    lemma_record_push(h, n, t0, "size"@, dec_text(c.size as nat));
    lemma_grow(x0, Seq::empty(), " size="@, "size"@, dec_text(c.size as nat));
    let x1 = x0 + " size="@ + dec_text(c.size as nat);
    let t1 = t0.push(("size"@, dec_text(c.size as nat)));
    lemma_number_value(c.flags);
    lemma_good_push(t1, "flags"@, hex_text(c.flags as nat));
    lemma_lookup_push(t1, "flags"@, hex_text(c.flags as nat));
    lemma_record_push(h, n, t1, "flags"@, hex_text(c.flags as nat));
    lemma_grow(x1, Seq::empty(), " flags="@, "flags"@, hex_text(c.flags as nat));
    let x2 = x1 + " flags="@ + hex_text(c.flags as nat);
    let t2 = t1.push(("flags"@, hex_text(c.flags as nat)));
    lemma_number_value(c.cb_type);
    lemma_good_push(t2, "kind"@, dec_text(c.cb_type as nat));
    lemma_lookup_push(t2, "kind"@, dec_text(c.cb_type as nat));
    lemma_record_push(h, n, t2, "kind"@, dec_text(c.cb_type as nat));
    lemma_grow(x2, Seq::empty(), " kind="@, "kind"@, dec_text(c.cb_type as nat));
    let x3 = x2 + " kind="@ + dec_text(c.cb_type as nat);
    let t3 = t2.push(("kind"@, dec_text(c.cb_type as nat)));
}

/// The line of a binding reads back.
proof fn lemma_binding(rd: RdefModel, b: BindingModel)
    requires
        solid(b.name),
    ensures
        is_clean(binding_line(b), false),
        rdef_line(rd, binding_line(b)) == Some(
            RdefModel { bindings: rd.bindings.push(b), ..rd },
        ),
{
    lemma_binding_tags(b);
    reveal_strlit("binding");
    let h = "binding"@;
    let ps = binding_tags(b);
    assert(solid(h));
    lemma_record(h, b.name, ps);
    let line = binding_line(b);
    assert(line[0] == 'b');
    lemma_no_header(rd, line);
    lemma_value(b.name, ps);
    let ws = tag_words(b.name, ps);
    lemma_number_value(b.input_type);
    lemma_number_value(b.return_type);
    lemma_number_value(b.dimension);
    lemma_number_value(b.num_samples);
    lemma_number_value(b.bind_point);
    lemma_number_value(b.bind_count);
    lemma_number_value(b.flags);
    assert(dec_of_key(ws, "input"@) == Some(b.input_type));
    assert(dec_of_key(ws, "return"@) == Some(b.return_type));
    assert(dec_of_key(ws, "dim"@) == Some(b.dimension));
    assert(dec_of_key(ws, "samples"@) == Some(b.num_samples));
    assert(dec_of_key(ws, "slot"@) == Some(b.bind_point));
    assert(dec_of_key(ws, "count"@) == Some(b.bind_count));
    assert(hex_of_key(ws, "flags"@) == Some(b.flags));
    assert(ws[0] == b.name);
    assert(read_binding(ws) == Some(b));
}

/// The buffer without its variables.
pub open spec fn bare_buffer(c: CBufferModel) -> CBufferModel {
    CBufferModel { variables: Seq::empty(), ..c }
}

/// The line of a buffer reads back.
proof fn lemma_cbuffer(rd: RdefModel, c: CBufferModel)
    requires
        solid(c.name),
    ensures
        is_clean(cbuffer_line(c), false),
        rdef_line(rd, cbuffer_line(c)) == Some(
            RdefModel { constant_buffers: rd.constant_buffers.push(bare_buffer(c)), ..rd },
        ),
{
    lemma_cbuffer_tags(c);
    reveal_strlit("cbuffer");
    reveal_strlit("binding");
    let h = "cbuffer"@;
    let ps = cbuffer_tags(c);
    assert(solid(h));
    lemma_record(h, c.name, ps);
    let line = cbuffer_line(c);
    assert(line[0] == 'c' && line[1] == 'b');
    assert(h[0] == 'c' && "binding"@[0] == 'b');
    lemma_no_header(rd, line);
    lemma_value(c.name, ps);
    let ws = tag_words(c.name, ps);
    lemma_number_value(c.size);
    lemma_number_value(c.flags);
    lemma_number_value(c.cb_type);
    assert(dec_of_key(ws, "size"@) == Some(c.size));
    assert(hex_of_key(ws, "flags"@) == Some(c.flags));
    assert(dec_of_key(ws, "kind"@) == Some(c.cb_type));
    assert(ws[0] == c.name);
    assert(read_cbuffer(ws) == Some(bare_buffer(c)));
}

// ---------------------------------------------------------------------------
// Types
// ---------------------------------------------------------------------------

/// Whether a type can be written on one line: its name is a word or empty.
pub open spec fn valid_type(t: TypeModel) -> bool {
    t.name.len() == 0 || solid(t.name)
}

/// The tags with those of a type that are always written.
pub open spec fn type_fixed(ps: Tags, t: TypeModel) -> Tags {
    ps.push(("class"@, dec_text(t.class as nat))).push(("base"@, dec_text(t.var_type as nat))).push(
        ("rows"@, dec_text(t.rows as nat)),
    ).push(("cols"@, dec_text(t.columns as nat))).push(("elements"@, dec_text(t.elements as nat)))
}

/// With the name, where there is one.
pub open spec fn type_named(ps: Tags, t: TypeModel) -> Tags {
    if t.name.len() == 0 {
        type_fixed(ps, t)
    } else {
        type_fixed(ps, t).push(("typename"@, t.name))
    }
}

/// The tags with those of a type.
pub open spec fn type_tags(ps: Tags, t: TypeModel) -> Tags {
    match t.sm5_extra {
        Some(e) => type_named(ps, t).push(("sm5"@, hex4_text(e))),
        None => type_named(ps, t),
    }
}

/// Whether the tags say nothing of a type.
pub open spec fn untyped(ps: Tags) -> bool {
    &&& lookup(ps, "class"@) is None
    &&& lookup(ps, "base"@) is None
    &&& lookup(ps, "rows"@) is None
    &&& lookup(ps, "cols"@) is None
    &&& lookup(ps, "elements"@) is None
    &&& lookup(ps, "typename"@) is None
    &&& lookup(ps, "sm5"@) is None
}

/// A short number as a value.
proof fn lemma_short_value(n: u16)
    ensures
        solid(dec_text(n as nat)),
        word_in(dec_text(n as nat), 10) == Some(n as u32),
{
    lemma_number_value(n as u32);
}

/// Four hexadecimal words read back, and are one word.
proof fn lemma_hex4(e: [u32; 4])
    ensures
        solid(hex4_text(e)),
        ({
            let p = split(hex4_text(e), ',');
            &&& word_at_part(p, 0) == Some(e[0])
            &&& word_at_part(p, 1) == Some(e[1])
            &&& word_at_part(p, 2) == Some(e[2])
            &&& word_at_part(p, 3) == Some(e[3])
        }),
{
    let a = hex_text(e[0] as nat);
    let b = hex_text(e[1] as nat);
    let c = hex_text(e[2] as nat);
    let d = hex_text(e[3] as nat);
    lemma_number_value(e[0]);
    lemma_number_value(e[1]);
    lemma_number_value(e[2]);
    lemma_number_value(e[3]);
    lemma_number_lacks(e[0] as nat, 16, ',');
    lemma_number_lacks(e[1] as nat, 16, ',');
    lemma_number_lacks(e[2] as nat, 16, ',');
    lemma_number_lacks(e[3] as nat, 16, ',');
    lemma_split_four(a, b, c, d);
    lemma_hex4_shape(a, b, c, d);
}

proof fn lemma_hex4_shape(a: Seq<char>, b: Seq<char>, c: Seq<char>, d: Seq<char>)
    requires
        solid(a),
        solid(b),
        solid(c),
        solid(d),
    ensures
        a.push(',') + b.push(',') + c.push(',') + d == a + (seq![','] + (b + (seq![','] + (c + (seq![
            ',',
        ] + d))))),
        solid(a.push(',') + b.push(',') + c.push(',') + d),
{
    let s = a.push(',') + b.push(',') + c.push(',') + d;
    assert(s =~= a + (seq![','] + (b + (seq![','] + (c + (seq![','] + d))))));
    lemma_solid_comma(a, b);
    lemma_solid_comma(a.push(',') + b, c);
    lemma_solid_comma(a.push(',') + b.push(',') + c, d);
    assert((a.push(',') + b).push(',') =~= a.push(',') + b.push(','));
    assert((a.push(',') + b.push(',') + c).push(',') =~= a.push(',') + b.push(',') + c.push(','));
}

proof fn lemma_solid_comma(a: Seq<char>, b: Seq<char>)
    requires
        solid(a),
        solid(b),
    ensures
        solid(a.push(',') + b),
{
    let s = a.push(',') + b;
    assert forall|i: int| 0 <= i < s.len() implies !is_white(#[trigger] s[i]) by {
        if i < a.len() {
            assert(!is_white(a[i]));
        } else if i > a.len() {
            assert(!is_white(b[i - a.len() - 1]));
        }
    }
}

/// The tags of a type are good, and say what the type is; other keys say what
/// they said before.
proof fn lemma_type_tags(ps: Tags, t: TypeModel)
    requires
        good_tags(ps),
        untyped(ps),
        valid_type(t),
    ensures
        ({
            let qs = type_tags(ps, t);
            &&& good_tags(qs)
            &&& lookup(qs, "class"@) == Some(dec_text(t.class as nat))
            &&& lookup(qs, "base"@) == Some(dec_text(t.var_type as nat))
            &&& lookup(qs, "rows"@) == Some(dec_text(t.rows as nat))
            &&& lookup(qs, "cols"@) == Some(dec_text(t.columns as nat))
            &&& lookup(qs, "elements"@) == Some(dec_text(t.elements as nat))
            &&& lookup(qs, "typename"@) == (if t.name.len() == 0 {
                None
            } else {
                Some(t.name)
            })
            &&& lookup(qs, "sm5"@) == (match t.sm5_extra {
                Some(e) => Some(hex4_text(e)),
                None => None,
            })
            &&& lookup(qs, "offset"@) == lookup(ps, "offset"@)
            &&& lookup(qs, "size"@) == lookup(ps, "size"@)
            &&& lookup(qs, "flags"@) == lookup(ps, "flags"@)
            &&& lookup(qs, "tex"@) == lookup(ps, "tex"@)
            &&& lookup(qs, "samp"@) == lookup(ps, "samp"@)
            &&& lookup(qs, "default"@) == lookup(ps, "default"@)
        }),
{
    lemma_keys();
    lemma_short_value(t.class);
    lemma_short_value(t.var_type);
    lemma_short_value(t.rows);
    lemma_short_value(t.columns);
    lemma_short_value(t.elements);
    let t1 = ps.push(("class"@, dec_text(t.class as nat)));
    let t2 = t1.push(("base"@, dec_text(t.var_type as nat)));
    let t3 = t2.push(("rows"@, dec_text(t.rows as nat)));
    let t4 = t3.push(("cols"@, dec_text(t.columns as nat)));
    lemma_good_push(ps, "class"@, dec_text(t.class as nat));
    lemma_good_push(t1, "base"@, dec_text(t.var_type as nat));
    lemma_good_push(t2, "rows"@, dec_text(t.rows as nat));
    lemma_good_push(t3, "cols"@, dec_text(t.columns as nat));
    lemma_good_push(t4, "elements"@, dec_text(t.elements as nat));
    lemma_lookup_push(ps, "class"@, dec_text(t.class as nat));
    lemma_lookup_push(t1, "base"@, dec_text(t.var_type as nat));
    lemma_lookup_push(t2, "rows"@, dec_text(t.rows as nat));
    lemma_lookup_push(t3, "cols"@, dec_text(t.columns as nat));
    lemma_lookup_push(t4, "elements"@, dec_text(t.elements as nat));
    if t.name.len() > 0 {
        lemma_good_push(type_fixed(ps, t), "typename"@, t.name);
        lemma_lookup_push(type_fixed(ps, t), "typename"@, t.name);
    }
    match t.sm5_extra {
        Some(e) => {
            lemma_hex4(e);
            lemma_good_push(type_named(ps, t), "sm5"@, hex4_text(e));
            lemma_lookup_push(type_named(ps, t), "sm5"@, hex4_text(e));
        },
        None => {},
    }
}

/// The always written tags of a type, as they are written.
pub open spec fn type_fixed_text(t: TypeModel) -> Seq<char> {
    " class="@ + dec_text(t.class as nat) + " base="@ + dec_text(t.var_type as nat) + " rows="@
        + dec_text(t.rows as nat) + " cols="@ + dec_text(t.columns as nat) + " elements="@
        + dec_text(t.elements as nat)
}

proof fn lemma_type_fixed_record(head: Seq<char>, name: Seq<char>, ps: Tags, t: TypeModel)
    ensures
        record(head, name, ps) + type_fixed_text(t) == record(head, name, type_fixed(ps, t)),
{
    lemma_keys();
    let x = record(head, name, ps);
    let d1 = dec_text(t.class as nat);
    let d2 = dec_text(t.var_type as nat);
    let d3 = dec_text(t.rows as nat);
    let d4 = dec_text(t.columns as nat);
    let d5 = dec_text(t.elements as nat);
    let t1 = ps.push(("class"@, d1));
    let t2 = t1.push(("base"@, d2));
    let t3 = t2.push(("rows"@, d3));
    let t4 = t3.push(("cols"@, d4));
    lemma_record_push(head, name, ps, "class"@, d1);
    lemma_record_push(head, name, t1, "base"@, d2);
    lemma_record_push(head, name, t2, "rows"@, d3);
    lemma_record_push(head, name, t3, "cols"@, d4);
    lemma_record_push(head, name, t4, "elements"@, d5);
    let a1 = " class="@ + d1;
    let a2 = a1 + " base="@ + d2;
    let a3 = a2 + " rows="@ + d3;
    let a4 = a3 + " cols="@ + d4;
    lemma_grow(x, Seq::empty(), " class="@, "class"@, d1);
    lemma_grow(x, a1, " base="@, "base"@, d2);
    lemma_grow(x, a2, " rows="@, "rows"@, d3);
    lemma_grow(x, a3, " cols="@, "cols"@, d4);
    lemma_grow(x, a4, " elements="@, "elements"@, d5);
}

/// A record with a type behind it, as it is written.
proof fn lemma_type_record(head: Seq<char>, name: Seq<char>, ps: Tags, t: TypeModel)
    ensures
        record(head, name, ps) + type_text(t) == record(head, name, type_tags(ps, t)),
{
    lemma_keys();
    lemma_type_fixed_record(head, name, ps, t);
    let x = record(head, name, ps);
    let a = type_fixed_text(t);
    let n = if t.name.len() == 0 {
        Seq::<char>::empty()
    } else {
        " typename="@ + t.name
    };
    let e = match t.sm5_extra {
        Some(e) => " sm5="@ + hex4_text(e),
        None => Seq::<char>::empty(),
    };
    assert(type_text(t) == a + n + e);
    if t.name.len() == 0 {
        assert(a + n =~= a);
    } else {
        lemma_grow(x, a, " typename="@, "typename"@, t.name);
        lemma_record_push(head, name, type_fixed(ps, t), "typename"@, t.name);
    }
    assert(x + (a + n) == record(head, name, type_named(ps, t)));
    match t.sm5_extra {
        Some(h) => {
            lemma_grow(x, a + n, " sm5="@, "sm5"@, hex4_text(h));
            lemma_record_push(head, name, type_named(ps, t), "sm5"@, hex4_text(h));
        },
        None => {
            assert(a + n + e =~= a + n);
        },
    }
}

/// The type without its members.
pub open spec fn bare_type(t: TypeModel) -> TypeModel {
    TypeModel { members: Seq::empty(), ..t }
}

/// A type reads back from the words of its record, without its members.
proof fn lemma_read_type(name: Seq<char>, qs: Tags, t: TypeModel)
    requires
        good_tags(qs),
        lookup(qs, "class"@) == Some(dec_text(t.class as nat)),
        lookup(qs, "base"@) == Some(dec_text(t.var_type as nat)),
        lookup(qs, "rows"@) == Some(dec_text(t.rows as nat)),
        lookup(qs, "cols"@) == Some(dec_text(t.columns as nat)),
        lookup(qs, "elements"@) == Some(dec_text(t.elements as nat)),
        lookup(qs, "typename"@) == (if t.name.len() == 0 {
            None
        } else {
            Some(t.name)
        }),
        lookup(qs, "sm5"@) == (match t.sm5_extra {
            Some(e) => Some(hex4_text(e)),
            None => None,
        }),
    ensures
        read_type(tag_words(name, qs)) == Some(bare_type(t)),
{
    let ws = tag_words(name, qs);
    lemma_value(name, qs);
    lemma_short_value(t.class);
    lemma_short_value(t.var_type);
    lemma_short_value(t.rows);
    lemma_short_value(t.columns);
    lemma_short_value(t.elements);
    assert(dec_of_key(ws, "class"@) == Some(t.class as u32));
    assert(dec_of_key(ws, "base"@) == Some(t.var_type as u32));
    assert(dec_of_key(ws, "rows"@) == Some(t.rows as u32));
    assert(dec_of_key(ws, "cols"@) == Some(t.columns as u32));
    assert(dec_of_key(ws, "elements"@) == Some(t.elements as u32));
    match t.sm5_extra {
        Some(e) => {
            lemma_hex4(e);
            assert([e[0], e[1], e[2], e[3]] =~= e);
        },
        None => {},
    }
    assert(read_sm5(ws) == Some(t.sm5_extra));
    if t.name.len() == 0 {
        assert(t.name =~= Seq::empty());
    }
}

// ---------------------------------------------------------------------------
// Members
// ---------------------------------------------------------------------------

/// Whether a member can be written: its name is a word, and its type has no
/// members of its own.
pub open spec fn valid_member(m: MemberModel) -> bool {
    solid(m.name) && valid_type(m.member_type) && m.member_type.members.len() == 0
}

/// The tags of a member before its type.
pub open spec fn member_head(m: MemberModel) -> Tags {
    Tags::empty().push(("offset"@, dec_text(m.offset as nat)))
}

/// The line of a member without its indent.
proof fn lemma_member_line(m: MemberModel)
    requires
        solid(m.name),
    ensures
        member_line(m) == repeated_space(4) + record(
            "member"@,
            m.name,
            type_tags(member_head(m), m.member_type),
        ),
        good_tags(member_head(m)),
        untyped(member_head(m)),
        lookup(member_head(m), "offset"@) == Some(dec_text(m.offset as nat)),
{
    lemma_keys();
    reveal_strlit("    member ");
    reveal_strlit("member");
    let h = "member"@;
    let n = m.name;
    let d = dec_text(m.offset as nat);
    let t0 = Tags::empty();
    lemma_number_value(m.offset);
    lemma_good_push(t0, "offset"@, d);
    lemma_lookup_push(t0, "offset"@, d);
    lemma_record_base(h, n);
    lemma_record_push(h, n, t0, "offset"@, d);
    let x = h + seq![' '] + n;
    lemma_grow(x, Seq::empty(), " offset="@, "offset"@, d);
    lemma_type_record(h, n, member_head(m), m.member_type);
    let y = x + " offset="@ + d;
    assert(y == record(h, n, member_head(m)));
    let i = repeated_space(4);
    assert("    member "@ =~= i + (h + seq![' ']));
    let t = type_text(m.member_type);
    lemma_indent4(i, h + seq![' '], n, " offset="@, d, t);
}

/// Spaces.
pub open spec fn repeated_space(n: nat) -> Seq<char> {
    Seq::new(n, |i: int| ' ')
}

proof fn lemma_indent4(
    i: Seq<char>,
    a: Seq<char>,
    b: Seq<char>,
    c: Seq<char>,
    d: Seq<char>,
    e: Seq<char>,
)
    ensures
        (i + a) + b + c + d + e == i + (a + b + c + d + e),
{
    assert((i + a) + b + c + d + e =~= i + (a + b + c + d + e));
}

/// The line of a member reads back into the last variable.
proof fn lemma_member(rd: RdefModel, m: MemberModel)
    requires
        valid_member(m),
    ensures
        ({
            let line = record("member"@, m.name, type_tags(member_head(m), m.member_type));
            &&& is_clean(line, false)
            &&& rdef_line(rd, line) == add_member(rd, m)
        }),
{
    lemma_member_line(m);
    let ps = member_head(m);
    let t = m.member_type;
    lemma_type_tags(ps, t);
    let qs = type_tags(ps, t);
    reveal_strlit("member");
    reveal_strlit("binding");
    reveal_strlit("cbuffer");
    let h = "member"@;
    assert(solid(h));
    lemma_record(h, m.name, qs);
    let line = record(h, m.name, qs);
    assert(line[0] == 'm');
    assert(h.len() == 6 && "binding"@.len() == 7 && "cbuffer"@.len() == 7);
    lemma_no_header(rd, line);
    lemma_value(m.name, qs);
    lemma_read_type(m.name, qs, t);
    let ws = tag_words(m.name, qs);
    lemma_number_value(m.offset);
    assert(dec_of_key(ws, "offset"@) == Some(m.offset));
    assert(ws[0] == m.name);
    assert(t.members =~= Seq::empty());
    assert(bare_type(t) == t);
    assert(read_member(ws) == Some(m));
}

// ---------------------------------------------------------------------------
// Variables
// ---------------------------------------------------------------------------

/// Whether a variable can be written: its name is a word, its type and its
/// members can, and it has both numbers of a slot range or none.
pub open spec fn valid_variable(v: VariableModel) -> bool {
    &&& solid(v.name)
    &&& valid_type(v.var_type)
    &&& v.texture_start is Some == v.texture_size is Some
    &&& v.sampler_start is Some == v.sampler_size is Some
    &&& forall|i: int|
        0 <= i < v.var_type.members.len() ==> valid_member(#[trigger] v.var_type.members[i])
}

/// The text of a slot range.
pub open spec fn slots_value(start: u32, size: u32) -> Seq<char> {
    int_text(signed_value(start)) + seq![','] + dec_text(size as nat)
}

/// A slot range reads back, and is a word.
proof fn lemma_slots_value(start: u32, size: u32)
    ensures
        solid(slots_value(start, size)),
        split_once(slots_value(start, size), ',') == Some(
            (int_text(signed_value(start)), dec_text(size as nat)),
        ),
        parse_int(int_text(signed_value(start)), 0x7fff_ffff) == Some(signed_value(start)),
        word_of_int(signed_value(start)) == start,
        word_in(dec_text(size as nat), 10) == Some(size),
{
    let i = signed_value(start);
    let a = int_text(i);
    let b = dec_text(size as nat);
    int_reads_back(i, 0x7fff_ffff);
    lemma_int_inked(i);
    lemma_inked_solid(a);
    lemma_number_value(size);
    let n = (if i < 0 {
        -i
    } else {
        i
    }) as nat;
    lemma_number_lacks(n, 10, ',');
    assert(lacks(a, ',')) by {
        let d = dec_text(n);
        assert forall|k: int| 0 <= k < a.len() implies #[trigger] a[k] != ',' by {
            if i < 0 {
                if k > 0 {
                    assert(a[k] == d[k - 1]);
                }
            } else {
                assert(a[k] == d[k]);
            }
        }
    }
    lemma_not_contains(a, ',');
    lemma_split_once_concat(a, ',', b);
    lemma_solid_comma(a, b);
    assert(a.push(',') + b =~= slots_value(start, size));
}

/// The tags of a variable before its type.
pub open spec fn var_head(v: VariableModel) -> Tags {
    Tags::empty().push(("offset"@, dec_text(v.offset as nat))).push(
        ("size"@, dec_text(v.size as nat)),
    ).push(("flags"@, hex_text(v.flags as nat)))
}

/// With the texture slots, where there are any.
pub open spec fn tex_tags(ps: Tags, v: VariableModel) -> Tags {
    match v.texture_start {
        Some(s) => ps.push(("tex"@, slots_value(s, v.texture_size->0))),
        None => ps,
    }
}

/// With the sampler slots, where there are any.
pub open spec fn samp_tags(ps: Tags, v: VariableModel) -> Tags {
    match v.sampler_start {
        Some(s) => ps.push(("samp"@, slots_value(s, v.sampler_size->0))),
        None => ps,
    }
}

/// With the default value, where there is one.
pub open spec fn default_tags(ps: Tags, v: VariableModel) -> Tags {
    if v.default_value.len() == 0 {
        ps
    } else {
        ps.push(("default"@, bytes_text(v.default_value, v.default_value.len() as int)))
    }
}

/// All tags of a variable.
pub open spec fn var_tags(v: VariableModel) -> Tags {
    default_tags(samp_tags(tex_tags(type_tags(var_head(v), v.var_type), v), v), v)
}

proof fn lemma_var_head(v: VariableModel)
    requires
        solid(v.name),
    ensures
        good_tags(var_head(v)),
        untyped(var_head(v)),
        lookup(var_head(v), "offset"@) == Some(dec_text(v.offset as nat)),
        lookup(var_head(v), "size"@) == Some(dec_text(v.size as nat)),
        lookup(var_head(v), "flags"@) == Some(hex_text(v.flags as nat)),
        lookup(var_head(v), "tex"@) is None,
        lookup(var_head(v), "samp"@) is None,
        lookup(var_head(v), "default"@) is None,
        "var"@ + seq![' '] + v.name + " offset="@ + dec_text(v.offset as nat) + " size="@
            + dec_text(v.size as nat) + " flags="@ + hex_text(v.flags as nat) == record(
            "var"@,
            v.name,
            var_head(v),
        ),
{
    lemma_keys();
    let h = "var"@;
    let n = v.name;
    let a = dec_text(v.offset as nat);
    let b = dec_text(v.size as nat);
    let c = hex_text(v.flags as nat);
    lemma_number_value(v.offset);
    lemma_number_value(v.size);
    lemma_number_value(v.flags);
    let t0 = Tags::empty();
    let t1 = t0.push(("offset"@, a));
    let t2 = t1.push(("size"@, b));
    lemma_good_push(t0, "offset"@, a);
    lemma_good_push(t1, "size"@, b);
    lemma_good_push(t2, "flags"@, c);
    lemma_lookup_push(t0, "offset"@, a);
    lemma_lookup_push(t1, "size"@, b);
    lemma_lookup_push(t2, "flags"@, c);
    lemma_record_base(h, n);
    lemma_record_push(h, n, t0, "offset"@, a);
    lemma_record_push(h, n, t1, "size"@, b);
    lemma_record_push(h, n, t2, "flags"@, c);
    let x0 = h + seq![' '] + n;
    let x1 = x0 + " offset="@ + a;
    let x2 = x1 + " size="@ + b;
    let e = Seq::<char>::empty();
    lemma_grow(x0, e, " offset="@, "offset"@, a);
    lemma_grow(x1, e, " size="@, "size"@, b);
    lemma_grow(x2, e, " flags="@, "flags"@, c);
}

/// A record with slots behind it, as it is written.
proof fn lemma_slots_record(
    head: Seq<char>,
    name: Seq<char>,
    ps: Tags,
    lit: Seq<char>,
    k: Seq<char>,
    start: Option<u32>,
    size: Option<u32>,
)
    requires
        lit == seq![' '] + k + seq!['='],
        start is Some == size is Some,
    ensures
        record(head, name, ps) + slots_text(lit, start, size) == (match start {
            Some(s) => record(head, name, ps.push((k, slots_value(s, size->0)))),
            None => record(head, name, ps),
        }),
{
    let x = record(head, name, ps);
    match start {
        Some(s) => {
            reveal_strlit(",");
            assert(","@ =~= seq![',']);
            let v = slots_value(s, size->0);
            lemma_record_push(head, name, ps, k, v);
            lemma_grow(x, Seq::empty(), lit, k, v);
            let a = int_text(signed_value(s));
            let b = dec_text(size->0 as nat);
            assert(lit + a + ","@ + b =~= lit + v);
        },
        None => {
            assert(x + slots_text(lit, start, size) =~= x);
        },
    }
}

/// The line of a variable without its indent.
proof fn lemma_var_line(v: VariableModel)
    requires
        valid_variable(v),
    ensures
        var_line(v) == repeated_space(2) + record("var"@, v.name, var_tags(v)),
{
    lemma_keys();
    reveal_strlit("  var ");
    reveal_strlit("var");
    let h = "var"@;
    let n = v.name;
    lemma_var_head(v);
    let p0 = var_head(v);
    let p1 = type_tags(p0, v.var_type);
    let p2 = tex_tags(p1, v);
    let p3 = samp_tags(p2, v);
    lemma_type_record(h, n, p0, v.var_type);
    lemma_slots_record(h, n, p1, " tex="@, "tex"@, v.texture_start, v.texture_size);
    lemma_slots_record(h, n, p2, " samp="@, "samp"@, v.sampler_start, v.sampler_size);
    let x3 = record(h, n, p3);
    let d = default_text(v.default_value);
    if v.default_value.len() == 0 {
        assert(x3 + d =~= x3);
    } else {
        let t = bytes_text(v.default_value, v.default_value.len() as int);
        lemma_record_push(h, n, p3, "default"@, t);
        lemma_grow(x3, Seq::empty(), " default="@, "default"@, t);
    }
    let i = repeated_space(2);
    let head = h + seq![' '];
    assert("  var "@ =~= i + head);
    let a = dec_text(v.offset as nat);
    let b = dec_text(v.size as nat);
    let c = hex_text(v.flags as nat);
    let y = head + n + " offset="@ + a + " size="@ + b + " flags="@ + c;
    lemma_indent_var(i, head, n, " offset="@, a, " size="@, b, " flags="@, c);
    let z = "  var "@ + n + " offset="@ + a + " size="@ + b + " flags="@ + c;
    assert(z == i + y);
    let q1 = type_text(v.var_type);
    let q2 = slots_text(" tex="@, v.texture_start, v.texture_size);
    let q3 = slots_text(" samp="@, v.sampler_start, v.sampler_size);
    lemma_indent4(i, y, q1, q2, q3, d);
}

proof fn lemma_indent_var(
    i: Seq<char>,
    a: Seq<char>,
    b: Seq<char>,
    c: Seq<char>,
    d: Seq<char>,
    e: Seq<char>,
    f: Seq<char>,
    g: Seq<char>,
    h: Seq<char>,
)
    ensures
        (i + a) + b + c + d + e + f + g + h == i + (a + b + c + d + e + f + g + h),
{
    lemma_indent4(i, a, b, c, d, e);
    let x = a + b + c + d + e;
    assert((i + x) + f + g + h =~= i + (x + f + g + h));
}

/// The tags of a variable are good and say what it is.
proof fn lemma_var_tags(v: VariableModel)
    requires
        valid_variable(v),
    ensures
        ({
            let qs = var_tags(v);
            let t = v.var_type;
            &&& good_tags(qs)
            &&& lookup(qs, "class"@) == Some(dec_text(t.class as nat))
            &&& lookup(qs, "base"@) == Some(dec_text(t.var_type as nat))
            &&& lookup(qs, "rows"@) == Some(dec_text(t.rows as nat))
            &&& lookup(qs, "cols"@) == Some(dec_text(t.columns as nat))
            &&& lookup(qs, "elements"@) == Some(dec_text(t.elements as nat))
            &&& lookup(qs, "typename"@) == (if t.name.len() == 0 {
                None
            } else {
                Some(t.name)
            })
            &&& lookup(qs, "sm5"@) == (match t.sm5_extra {
                Some(e) => Some(hex4_text(e)),
                None => None,
            })
            &&& lookup(qs, "offset"@) == Some(dec_text(v.offset as nat))
            &&& lookup(qs, "size"@) == Some(dec_text(v.size as nat))
            &&& lookup(qs, "flags"@) == Some(hex_text(v.flags as nat))
            &&& lookup(qs, "tex"@) == (match v.texture_start {
                Some(s) => Some(slots_value(s, v.texture_size->0)),
                None => None,
            })
            &&& lookup(qs, "samp"@) == (match v.sampler_start {
                Some(s) => Some(slots_value(s, v.sampler_size->0)),
                None => None,
            })
            &&& lookup(qs, "default"@) == (if v.default_value.len() == 0 {
                None
            } else {
                Some(bytes_text(v.default_value, v.default_value.len() as int))
            })
        }),
{
    lemma_keys();
    lemma_var_head(v);
    lemma_type_tags(var_head(v), v.var_type);
    let p1 = type_tags(var_head(v), v.var_type);
    let p2 = tex_tags(p1, v);
    let p3 = samp_tags(p2, v);
    match v.texture_start {
        Some(s) => {
            lemma_slots_value(s, v.texture_size->0);
            lemma_good_push(p1, "tex"@, slots_value(s, v.texture_size->0));
            lemma_lookup_push(p1, "tex"@, slots_value(s, v.texture_size->0));
        },
        None => {},
    }
    match v.sampler_start {
        Some(s) => {
            lemma_slots_value(s, v.sampler_size->0);
            lemma_good_push(p2, "samp"@, slots_value(s, v.sampler_size->0));
            lemma_lookup_push(p2, "samp"@, slots_value(s, v.sampler_size->0));
        },
        None => {},
    }
    if v.default_value.len() > 0 {
        let n = v.default_value.len() as int;
        let t = bytes_text(v.default_value, n);
        lemma_bytes_text(v.default_value, n);
        assert forall|i: int| 0 <= i < t.len() implies !is_white(#[trigger] t[i]) by {
            assert(is_lower_digit(t[i], 16));
        }
        lemma_good_push(p3, "default"@, t);
        lemma_lookup_push(p3, "default"@, t);
    }
}

/// The variable without the members of its type.
pub open spec fn bare_variable(v: VariableModel) -> VariableModel {
    VariableModel { var_type: bare_type(v.var_type), ..v }
}

/// The slots of a variable read back.
proof fn lemma_read_slots(
    name: Seq<char>,
    qs: Tags,
    key: Seq<char>,
    start: Option<u32>,
    size: Option<u32>,
)
    requires
        good_tags(qs),
        start is Some == size is Some,
        lookup(qs, key) == (match start {
            Some(s) => Some(slots_value(s, size->0)),
            None => None,
        }),
    ensures
        ({
            let r = read_slots(tag_words(name, qs), key);
            &&& r is Some
            &&& first_of(r->0) == start
            &&& second_of(r->0) == size
        }),
{
    lemma_value(name, qs);
    assert(value_of_key(tag_words(name, qs), key) == lookup(qs, key));
    match start {
        Some(s) => {
            lemma_slots_value(s, size->0);
        },
        None => {},
    }
}

/// A variable reads back from the words of its record, without its members.
proof fn lemma_read_var(v: VariableModel)
    requires
        valid_variable(v),
    ensures
        read_var(tag_words(v.name, var_tags(v))) == Some(bare_variable(v)),
        good_tags(var_tags(v)),
{
    lemma_var_tags(v);
    let qs = var_tags(v);
    let ws = tag_words(v.name, qs);
    lemma_value(v.name, qs);
    lemma_read_type(v.name, qs, v.var_type);
    lemma_read_slots(v.name, qs, "tex"@, v.texture_start, v.texture_size);
    lemma_read_slots(v.name, qs, "samp"@, v.sampler_start, v.sampler_size);
    lemma_number_value(v.offset);
    lemma_number_value(v.size);
    lemma_number_value(v.flags);
    assert(dec_of_key(ws, "offset"@) == Some(v.offset));
    assert(dec_of_key(ws, "size"@) == Some(v.size));
    assert(hex_of_key(ws, "flags"@) == Some(v.flags));
    bytes_read_back(v.default_value);
    assert(value_of_key(ws, "default"@) == lookup(qs, "default"@));
    if v.default_value.len() == 0 {
        assert(v.default_value =~= Seq::empty());
    }
    assert(read_default(ws) == Some(v.default_value));
    assert(ws[0] == v.name);
}

/// The line of a variable reads back into the last buffer.
proof fn lemma_variable(rd: RdefModel, v: VariableModel)
    requires
        valid_variable(v),
    ensures
        ({
            let line = record("var"@, v.name, var_tags(v));
            &&& is_clean(line, false)
            &&& rdef_line(rd, line) == add_var(rd, bare_variable(v))
        }),
{
    lemma_read_var(v);
    reveal_strlit("var");
    reveal_strlit("binding");
    reveal_strlit("cbuffer");
    reveal_strlit("member");
    let h = "var"@;
    let qs = var_tags(v);
    assert(solid(h));
    lemma_record(h, v.name, qs);
    let line = record(h, v.name, qs);
    assert(line[0] == 'v' && line[1] == 'a');
    assert(h.len() == 3 && "binding"@.len() == 7 && "cbuffer"@.len() == 7 && "member"@.len() == 6);
    lemma_no_header(rd, line);
}

// ---------------------------------------------------------------------------
// Lines one behind the other
// ---------------------------------------------------------------------------

/// The definitions with what a text says.
pub open spec fn after(rd: RdefModel, s: Seq<char>) -> Option<RdefModel> {
    rdef_lines(rd, text_lines(s, false), 0)
}

proof fn lemma_lines_skip(rd: RdefModel, ls: Seq<Seq<char>>, k: int)
    requires
        0 <= k <= ls.len(),
    ensures
        rdef_lines(rd, ls, k) == rdef_lines(rd, ls.skip(k), 0),
    decreases ls.len() - k,
{
    let t = ls.skip(k);
    if k < ls.len() {
        assert(t[0] == ls[k]);
        match rdef_line(rd, ls[k]) {
            Some(rd2) => {
                lemma_lines_skip(rd2, ls, k + 1);
                lemma_lines_skip(rd2, t, 1);
                assert(t.skip(1) =~= ls.skip(k + 1));
            },
            None => {},
        }
    }
}

proof fn lemma_lines_concat(rd: RdefModel, a: Seq<Seq<char>>, b: Seq<Seq<char>>)
    ensures
        rdef_lines(rd, a + b, 0) == (match rdef_lines(rd, a, 0) {
            Some(rd2) => rdef_lines(rd2, b, 0),
            None => None,
        }),
    decreases a.len(),
{
    let all = a + b;
    if a.len() == 0 {
        assert(all =~= b);
    } else {
        assert(all[0] == a[0]);
        match rdef_line(rd, a[0]) {
            Some(rd2) => {
                lemma_lines_skip(rd2, all, 1);
                lemma_lines_skip(rd2, a, 1);
                assert(all.skip(1) =~= a.skip(1) + b);
                lemma_lines_concat(rd2, a.skip(1), b);
            },
            None => {},
        }
    }
}

/// Text behind text is read behind it.
proof fn lemma_after(rd: RdefModel, a: Seq<char>, b: Seq<char>)
    requires
        a.len() == 0 || a.last() == '\n',
    ensures
        after(rd, a + b) == (match after(rd, a) {
            Some(rd2) => after(rd2, b),
            None => None,
        }),
{
    lemma_text_lines_concat(a, b, false);
    lemma_lines_concat(rd, text_lines(a, false), text_lines(b, false));
}

/// Nothing says nothing.
proof fn lemma_after_nothing(rd: RdefModel)
    ensures
        after(rd, Seq::empty()) == Some(rd),
{
    lemma_empty_line(false);
}

/// One line, indented or not.
proof fn lemma_after_line(rd: RdefModel, indent: nat, line: Seq<char>)
    requires
        is_clean(line, false),
    ensures
        after(rd, (repeated_space(indent) + line).push('\n')) == rdef_line(rd, line),
{
    let s = (repeated_space(indent) + line).push('\n');
    lemma_indented(indent, line);
    let ls = text_lines(s, false);
    assert(ls[0] == line);
    match rdef_line(rd, line) {
        Some(rd2) => {
            lemma_lines_skip(rd2, ls, 1);
            assert(ls.skip(1) =~= Seq::empty());
        },
        None => {},
    }
}

/// An indented line is the line.
proof fn lemma_indented(indent: nat, line: Seq<char>)
    requires
        is_clean(line, false),
    ensures
        text_lines((repeated_space(indent) + line).push('\n'), false) == seq![line],
{
    let t = repeated_space(indent) + line;
    let s = t.push('\n');
    assert forall|i: int| 0 <= i < t.len() implies #[trigger] t[i] != '\n' by {
        if i >= indent {
            assert(t[i] == line[i - indent]);
            assert(line.contains(line[i - indent]));
        }
    }
    assert(s =~= t + seq!['\n']);
    lemma_span_until_concat(t, seq!['\n'], '\n', '\n', '\n');
    reveal_with_fuel(text_lines, 2);
    assert(s.skip(t.len() as int + 1) =~= Seq::empty());
    lemma_empty_line(false);
    lemma_trim_indent(indent, line);
    lemma_trim_trimmed(line);
    assert(text_lines(s, false) =~= seq![line]);
}

proof fn lemma_trim_indent(indent: nat, line: Seq<char>)
    requires
        line.len() > 0,
        !is_white(line[0]),
    ensures
        trim_start(repeated_space(indent) + line) == line,
    decreases indent,
{
    let t = repeated_space(indent) + line;
    if indent == 0 {
        assert(t =~= line);
    } else {
        let n = (indent - 1) as nat;
        assert(t.skip(1) =~= repeated_space(n) + line);
        lemma_trim_indent(n, line);
    }
}

/// One line behind others.
proof fn lemma_after_next(rd: RdefModel, rd1: RdefModel, a: Seq<char>, indent: nat, line: Seq<char>)
    requires
        a.len() == 0 || a.last() == '\n',
        after(rd, a) == Some(rd1),
        is_clean(line, false),
    ensures
        after(rd, a + (repeated_space(indent) + line).push('\n')) == rdef_line(rd1, line),
        (a + (repeated_space(indent) + line).push('\n')).last() == '\n',
{
    let b = (repeated_space(indent) + line).push('\n');
    lemma_after(rd, a, b);
    lemma_after_line(rd1, indent, line);
    assert((a + b).last() == b.last());
}

/// A line that is not indented.
proof fn lemma_no_indent(line: Seq<char>)
    ensures
        repeated_space(0) + line == line,
{
    assert(repeated_space(0) + line =~= line);
}

// ---------------------------------------------------------------------------
// All records
// ---------------------------------------------------------------------------

proof fn lemma_bindings(rd: RdefModel, bs: Seq<BindingModel>, n: int)
    requires
        0 <= n <= bs.len(),
        forall|i: int| 0 <= i < bs.len() ==> solid(#[trigger] bs[i].name),
    ensures
        after(rd, bindings_text(bs, n)) == Some(
            RdefModel { bindings: rd.bindings + bs.take(n), ..rd },
        ),
        bindings_text(bs, n).len() == 0 || bindings_text(bs, n).last() == '\n',
    decreases n,
{
    if n == 0 {
        lemma_after_nothing(rd);
        assert(rd.bindings + bs.take(0) =~= rd.bindings);
    } else {
        lemma_bindings(rd, bs, n - 1);
        let b = bs[n - 1];
        assert(solid(bs[n - 1].name));
        let rd1 = RdefModel { bindings: rd.bindings + bs.take(n - 1), ..rd };
        lemma_binding(rd1, b);
        lemma_no_indent(binding_line(b));
        lemma_after_next(rd, rd1, bindings_text(bs, n - 1), 0, binding_line(b));
        assert((rd.bindings + bs.take(n - 1)).push(b) =~= rd.bindings + bs.take(n));
    }
}

/// The definitions with more members in the last variable of the last buffer.
pub open spec fn more_members(rd: RdefModel, ms: Seq<MemberModel>) -> RdefModel {
    let cs = rd.constant_buffers;
    let c = cs.last();
    let v = c.variables.last();
    let v2 = VariableModel {
        var_type: TypeModel { members: v.var_type.members + ms, ..v.var_type },
        ..v
    };
    let c2 = CBufferModel { variables: c.variables.drop_last().push(v2), ..c };
    RdefModel { constant_buffers: cs.drop_last().push(c2), ..rd }
}

/// Whether the definitions have a buffer, and that a variable, at their end.
pub open spec fn open_variable(rd: RdefModel) -> bool {
    rd.constant_buffers.len() > 0 && rd.constant_buffers.last().variables.len() > 0
}

proof fn lemma_more_members_none(rd: RdefModel)
    requires
        open_variable(rd),
    ensures
        more_members(rd, Seq::empty()) == rd,
{
    let cs = rd.constant_buffers;
    let c = cs.last();
    let v = c.variables.last();
    assert(v.var_type.members + Seq::<MemberModel>::empty() =~= v.var_type.members);
    assert(c.variables.drop_last().push(v) =~= c.variables);
    assert(cs.drop_last().push(c) =~= cs);
}

proof fn lemma_more_members_push(rd: RdefModel, ms: Seq<MemberModel>, m: MemberModel)
    requires
        open_variable(rd),
    ensures
        add_member(more_members(rd, ms), m) == Some(more_members(rd, ms.push(m))),
{
    let a = more_members(rd, ms);
    let b = more_members(rd, ms.push(m));
    let cs = rd.constant_buffers;
    let c = cs.last();
    let v = c.variables.last();
    let c2 = a.constant_buffers.last();
    let v2 = c2.variables.last();
    assert(a.constant_buffers.drop_last() =~= cs.drop_last());
    assert(c2.variables.drop_last() =~= c.variables.drop_last());
    assert(v2.var_type.members == v.var_type.members + ms);
    assert((v.var_type.members + ms).push(m) =~= v.var_type.members + ms.push(m));
}

proof fn lemma_members(rd: RdefModel, ms: Seq<MemberModel>, n: int)
    requires
        0 <= n <= ms.len(),
        open_variable(rd),
        forall|i: int| 0 <= i < ms.len() ==> valid_member(#[trigger] ms[i]),
    ensures
        after(rd, members_text(ms, n)) == Some(more_members(rd, ms.take(n))),
        members_text(ms, n).len() == 0 || members_text(ms, n).last() == '\n',
    decreases n,
{
    if n == 0 {
        lemma_after_nothing(rd);
        assert(ms.take(0) =~= Seq::empty());
        lemma_more_members_none(rd);
    } else {
        lemma_members(rd, ms, n - 1);
        let m = ms[n - 1];
        assert(valid_member(ms[n - 1]));
        let rd1 = more_members(rd, ms.take(n - 1));
        lemma_member_line(m);
        lemma_member(rd1, m);
        let line = record("member"@, m.name, type_tags(member_head(m), m.member_type));
        lemma_after_next(rd, rd1, members_text(ms, n - 1), 4, line);
        lemma_more_members_push(rd, ms.take(n - 1), m);
        assert(ms.take(n) =~= ms.take(n - 1).push(m));
    }
}

/// The definitions with more variables in the last buffer.
pub open spec fn more_variables(rd: RdefModel, vs: Seq<VariableModel>) -> RdefModel {
    let cs = rd.constant_buffers;
    let c = cs.last();
    let c2 = CBufferModel { variables: c.variables + vs, ..c };
    RdefModel { constant_buffers: cs.drop_last().push(c2), ..rd }
}

/// A variable without its members and then its members.
proof fn lemma_variable_members(rd: RdefModel, vs: Seq<VariableModel>, v: VariableModel)
    requires
        rd.constant_buffers.len() > 0,
    ensures
        ({
            let a = add_var(more_variables(rd, vs), bare_variable(v));
            &&& a is Some
            &&& open_variable(a->0)
            &&& more_members(a->0, v.var_type.members) == more_variables(rd, vs.push(v))
        }),
{
    let cs = rd.constant_buffers;
    let c = cs.last();
    let r = more_variables(rd, vs);
    let c2 = r.constant_buffers.last();
    let w = bare_variable(v);
    assert(c2.variables == c.variables + vs);
    assert(r.constant_buffers.drop_last() =~= cs.drop_last());
    let a = add_var(r, w)->0;
    let c3 = a.constant_buffers.last();
    assert(a.constant_buffers.drop_last() =~= cs.drop_last());
    assert(c3.variables == (c.variables + vs).push(w));
    assert(c3.variables.drop_last() =~= c.variables + vs);
    assert(c3.variables.last() == w);
    let ms = v.var_type.members;
    assert(w.var_type.members + ms =~= ms);
    assert((c.variables + vs).push(v) =~= c.variables + vs.push(v));
    let v2 = VariableModel {
        var_type: TypeModel { members: w.var_type.members + ms, ..w.var_type },
        ..w
    };
    assert(v2 == v);
}

proof fn lemma_variables(rd: RdefModel, vs: Seq<VariableModel>, n: int)
    requires
        0 <= n <= vs.len(),
        rd.constant_buffers.len() > 0,
        forall|i: int| 0 <= i < vs.len() ==> valid_variable(#[trigger] vs[i]),
    ensures
        after(rd, vars_text(vs, n)) == Some(more_variables(rd, vs.take(n))),
        vars_text(vs, n).len() == 0 || vars_text(vs, n).last() == '\n',
    decreases n,
{
    if n == 0 {
        lemma_after_nothing(rd);
        assert(vs.take(0) =~= Seq::empty());
        let c = rd.constant_buffers.last();
        assert(c.variables + Seq::<VariableModel>::empty() =~= c.variables);
        assert(rd.constant_buffers.drop_last().push(c) =~= rd.constant_buffers);
    } else {
        lemma_variables(rd, vs, n - 1);
        let v = vs[n - 1];
        assert(valid_variable(vs[n - 1]));
        let rd1 = more_variables(rd, vs.take(n - 1));
        lemma_var_line(v);
        lemma_variable(rd1, v);
        let line = record("var"@, v.name, var_tags(v));
        let a = vars_text(vs, n - 1);
        let b = var_line(v).push('\n');
        lemma_after_next(rd, rd1, a, 2, line);
        lemma_variable_members(rd, vs.take(n - 1), v);
        let rd2 = add_var(rd1, bare_variable(v))->0;
        let ms = v.var_type.members;
        lemma_members(rd2, ms, ms.len() as int);
        assert(ms.take(ms.len() as int) =~= ms);
        let c = members_text(ms, ms.len() as int);
        lemma_after(rd, a + b, c);
        assert(vs.take(n) =~= vs.take(n - 1).push(v));
        if c.len() > 0 {
            assert((a + b + c).last() == c.last());
        } else {
            assert(a + b + c =~= a + b);
        }
    }
}

/// Whether a buffer can be written: its name is a word, and its variables can.
pub open spec fn valid_buffer(c: CBufferModel) -> bool {
    &&& solid(c.name)
    &&& forall|i: int| 0 <= i < c.variables.len() ==> valid_variable(#[trigger] c.variables[i])
}

proof fn lemma_buffers(rd: RdefModel, cs: Seq<CBufferModel>, n: int)
    requires
        0 <= n <= cs.len(),
        forall|i: int| 0 <= i < cs.len() ==> valid_buffer(#[trigger] cs[i]),
    ensures
        after(rd, cbuffers_text(cs, n)) == Some(
            RdefModel { constant_buffers: rd.constant_buffers + cs.take(n), ..rd },
        ),
        cbuffers_text(cs, n).len() == 0 || cbuffers_text(cs, n).last() == '\n',
    decreases n,
{
    let old = rd.constant_buffers;
    if n == 0 {
        lemma_after_nothing(rd);
        assert(old + cs.take(0) =~= old);
    } else {
        lemma_buffers(rd, cs, n - 1);
        let c = cs[n - 1];
        assert(valid_buffer(cs[n - 1]));
        let rd1 = RdefModel { constant_buffers: old + cs.take(n - 1), ..rd };
        lemma_cbuffer(rd1, c);
        lemma_no_indent(cbuffer_line(c));
        let a = cbuffers_text(cs, n - 1);
        let b = cbuffer_line(c).push('\n');
        lemma_after_next(rd, rd1, a, 0, cbuffer_line(c));
        let rd2 = RdefModel {
            constant_buffers: (old + cs.take(n - 1)).push(bare_buffer(c)),
            ..rd1
        };
        let vs = c.variables;
        lemma_variables(rd2, vs, vs.len() as int);
        assert(vs.take(vs.len() as int) =~= vs);
        let t = vars_text(vs, vs.len() as int);
        lemma_after(rd, a + b, t);
        let rd3 = more_variables(rd2, vs);
        assert(rd2.constant_buffers.drop_last() =~= old + cs.take(n - 1));
        assert(rd2.constant_buffers.last() == bare_buffer(c));
        assert(bare_buffer(c).variables + vs =~= vs);
        assert(rd3.constant_buffers =~= old + cs.take(n)) by {
            assert((old + cs.take(n - 1)).push(c) =~= old + cs.take(n));
        }
        if t.len() > 0 {
            assert((a + b + t).last() == t.last());
        } else {
            assert(a + b + t =~= a + b);
        }
    }
}

// ---------------------------------------------------------------------------
// The header
// ---------------------------------------------------------------------------

/// Whether the name of the compiler can be written: it lies on one line and does
/// not end with white space.
pub open spec fn valid_creator(s: Seq<char>) -> bool {
    lacks(s, '\n') && (s.len() == 0 || !is_white(s.last()))
}

/// The value behind a header's key.
proof fn lemma_header_value(key: Seq<char>, v: Seq<char>)
    ensures
        header_value(key.push('=') + v, key) == Some(v),
{
    let line = key.push('=') + v;
    let n = key.len() as int + 1;
    assert(line.take(n) =~= key.push('='));
    assert(line.skip(n) =~= v);
}

pub proof fn lemma_version_line(rd: RdefModel, x: u32)
    ensures
        ({
            let line = "version=0x"@ + hex_padded(x as nat, 8);
            &&& is_clean(line, false)
            &&& rdef_line(rd, line) == Some(RdefModel { target_version: x, ..rd })
        }),
{
    reveal(rdef_line);
    reveal_strlit("version=0x");
    reveal_strlit("version");
    reveal_strlit("0x");
    let d = hex_padded(x as nat, 8);
    let v = "0x"@ + d;
    let line = "version=0x"@ + d;
    assert(line =~= "version"@.push('=') + v);
    lemma_header_value("version"@, v);
    lemma_padded_inked(x as nat);
    padded_hex_reads_back(x as nat, 8, 0xffff_ffff);
    lemma_hex_value(x, d);
    assert(line.skip(10) =~= d);
    lemma_inked_line(line, 10, d);
}

/// A hexadecimal number behind `0x`.
proof fn lemma_hex_value(x: u32, d: Seq<char>)
    requires
        inked(d),
        d.len() > 0,
        word_in(d, 16) == Some(x),
    ensures
        read_hex0x("0x"@ + d) == Some(x),
{
    reveal_strlit("0x");
    let v = "0x"@ + d;
    assert(is_plain_char(d[d.len() - 1]) && d[d.len() - 1] != ' ');
    assert(v.last() == d[d.len() - 1]);
    lemma_trim_trimmed(v);
    assert(v.take(2) =~= "0x"@);
    assert(v.skip(2) =~= d);
}

/// A line of printable characters that ends with digits is clean.
proof fn lemma_inked_line(line: Seq<char>, n: int, d: Seq<char>)
    requires
        0 < n,
        line.len() == n + d.len(),
        d.len() > 0,
        inked(d),
        line.skip(n) == d,
        forall|i: int| 0 <= i < n ==> is_plain_char(#[trigger] line[i]) && line[i] != ' ',
    ensures
        is_clean(line, false),
{
    assert forall|i: int| 0 <= i < line.len() implies is_plain_char(#[trigger] line[i]) && line[i]
        != ' ' by {
        if i >= n {
            assert(line[i] == line.skip(n)[i - n]);
            assert(is_plain_char(d[i - n]) && d[i - n] != ' ');
        }
    }
    assert(is_plain_char(line[line.len() - 1]) && line[line.len() - 1] != ' ');
    if line.contains('\n') {
        let i = choose|i: int| 0 <= i < line.len() && line[i] == '\n';
        assert(is_plain_char(line[i]));
    }
}

pub proof fn lemma_flags_line(rd: RdefModel, x: u32)
    ensures
        ({
            let line = "flags=0x"@ + hex_text(x as nat);
            &&& is_clean(line, false)
            &&& rdef_line(rd, line) == Some(RdefModel { compile_flags: x, ..rd })
        }),
{
    reveal(rdef_line);
    reveal_strlit("flags=0x");
    reveal_strlit("flags");
    reveal_strlit("version");
    reveal_strlit("0x");
    let d = hex_text(x as nat);
    let v = "0x"@ + d;
    let line = "flags=0x"@ + d;
    assert(line =~= "flags"@.push('=') + v);
    lemma_header_value("flags"@, v);
    lemma_number_inked(x as nat);
    lemma_number_value(x);
    lemma_hex_value(x, d);
    assert(line.skip(8) =~= d);
    lemma_inked_line(line, 8, d);
    lemma_no_key(line, "version"@);
}

pub proof fn lemma_creator_line(rd: RdefModel, s: Seq<char>)
    requires
        valid_creator(s),
    ensures
        ({
            let line = "creator="@ + s;
            &&& is_clean(line, false)
            &&& rdef_line(rd, line) == Some(RdefModel { creator: s, ..rd })
        }),
{
    reveal(rdef_line);
    reveal_strlit("creator=");
    reveal_strlit("creator");
    reveal_strlit("flags");
    reveal_strlit("version");
    let line = "creator="@ + s;
    assert(line =~= "creator"@.push('=') + s);
    lemma_header_value("creator"@, s);
    assert(line[0] == 'c');
    lemma_no_key(line, "version"@);
    lemma_no_key(line, "flags"@);
    if s.len() > 0 {
        assert(line.last() == s.last());
    } else {
        assert(line =~= "creator="@);
    }
    if line.contains('\n') {
        let i = choose|i: int| 0 <= i < line.len() && line[i] == '\n';
        if i >= 8 {
            assert(s[i - 8] == '\n');
        }
    }
}

/// A hexadecimal word as a part of a list.
proof fn lemma_hex_part_text(v: u32)
    ensures
        lacks(hex_text(v as nat), ','),
        inked(hex_text(v as nat)),
        hex_text(v as nat).len() > 0,
        word_in(trim(hex_text(v as nat)), 16) == Some(v),
{
    lemma_number_lacks(v as nat, 16, ',');
    lemma_number_inked(v as nat);
    lemma_number_value(v);
    let t = hex_text(v as nat);
    assert(!is_white(t[0]) && !is_white(t[t.len() - 1]));
    lemma_trim_trimmed(t);
}

/// The words from number `k` on, separated by commas.
pub open spec fn hex_tail(e: [u32; 8], k: int) -> Seq<char>
    decreases 8 - k,
{
    if k >= 7 {
        hex_text(e[7] as nat)
    } else {
        hex_text(e[k] as nat) + (seq![','] + hex_tail(e, k + 1))
    }
}

proof fn lemma_hex_tail(e: [u32; 8], k: int)
    requires
        0 <= k <= 7,
    ensures
        split(hex_tail(e, k), ',').len() == 8 - k,
        forall|i: int|
            0 <= i < 8 - k ==> #[trigger] split(hex_tail(e, k), ',')[i] == hex_text(
                e[k + i] as nat,
            ),
        inked(hex_tail(e, k)),
        hex_tail(e, k).len() > 0,
    decreases 8 - k,
{
    broadcast use crate::roundtrip::clean::lemma_inked_concat;

    lemma_hex_part_text(e[k]);
    let t = hex_text(e[k] as nat);
    if k == 7 {
        crate::roundtrip::modifiers::lemma_split_one(t, ',');
    } else {
        lemma_hex_tail(e, k + 1);
        let rest = hex_tail(e, k + 1);
        lemma_split_first(t, ',', rest);
        let all = split(hex_tail(e, k), ',');
        let more = split(rest, ',');
        assert(all == seq![t] + more);
        assert forall|i: int| 0 <= i < 8 - k implies #[trigger] all[i] == hex_text(
            e[k + i] as nat,
        ) by {
            if i > 0 {
                assert(all[i] == more[i - 1]);
                assert(more[i - 1] == hex_text(e[k + 1 + (i - 1)] as nat));
            }
        }
        assert(inked(seq![',']));
    }
}

proof fn lemma_hex8_list(e: [u32; 8])
    ensures
        hex8_list(e) == hex_tail(e, 0),
{
    let a = hex_text(e[0] as nat);
    let b = hex_text(e[1] as nat);
    let c = hex_text(e[2] as nat);
    let d = hex_text(e[3] as nat);
    let f = hex_text(e[4] as nat);
    let g = hex_text(e[5] as nat);
    let h = hex_text(e[6] as nat);
    let i = hex_text(e[7] as nat);
    reveal_with_fuel(hex_tail, 9);
    lemma_comma_cat(a, b, c, d);
    lemma_comma_cat(f, g, h, i);
    let x = a.push(',') + b.push(',') + c.push(',') + d;
    let y = f.push(',') + g.push(',') + h.push(',') + i;
    let z = f + (seq![','] + (g + (seq![','] + (h + (seq![','] + i)))));
    assert(hex8_list(e) =~= x.push(',') + y);
    let w = a + (seq![','] + (b + (seq![','] + (c + (seq![','] + d)))));
    assert(x.push(',') + z =~= w + (seq![','] + z));
    lemma_comma_tail(a, b, c, d, z);
}

proof fn lemma_comma_cat(a: Seq<char>, b: Seq<char>, c: Seq<char>, d: Seq<char>)
    ensures
        a.push(',') + b.push(',') + c.push(',') + d == a + (seq![','] + (b + (seq![','] + (c + (seq![
            ',',
        ] + d))))),
{
    assert(a.push(',') + b.push(',') + c.push(',') + d =~= a + (seq![','] + (b + (seq![','] + (c + (
    seq![','] + d))))));
}

proof fn lemma_comma_tail(
    a: Seq<char>,
    b: Seq<char>,
    c: Seq<char>,
    d: Seq<char>,
    z: Seq<char>,
)
    ensures
        a + (seq![','] + (b + (seq![','] + (c + (seq![','] + d))))) + (seq![','] + z) == a + (seq![
            ',',
        ] + (b + (seq![','] + (c + (seq![','] + (d + (seq![','] + z))))))),
{
    assert(a + (seq![','] + (b + (seq![','] + (c + (seq![','] + d))))) + (seq![','] + z) =~= a + (
    seq![','] + (b + (seq![','] + (c + (seq![','] + (d + (seq![','] + z))))))));
}

pub proof fn lemma_rd11_line(rd: RdefModel, e: [u32; 8])
    ensures
        ({
            let line = "rd11="@ + hex8_list(e);
            &&& is_clean(line, false)
            &&& rdef_line(rd, line) == Some(RdefModel { rd11_extra: Some(e), ..rd })
        }),
{
    reveal(rdef_line);
    reveal_strlit("rd11=");
    reveal_strlit("creator");
    reveal_strlit("flags");
    reveal_strlit("version");
    let v = hex8_list(e);
    let line = "rd11="@ + v;
    assert(inked(v) && v.len() > 0) by {
        lemma_hex8_list(e);
        lemma_hex_tail(e, 0);
    }
    assert(line.take(5) =~= "rd11="@);
    assert(line.skip(5) =~= v);
    assert(line[0] == 'r');
    lemma_no_key(line, "version"@);
    lemma_no_key(line, "flags"@);
    lemma_no_key(line, "creator"@);
    lemma_inked_line(line, 5, v);
    lemma_rd11_value(e);
}

proof fn lemma_rd11_value(e: [u32; 8])
    ensures
        read_rd11(hex8_list(e)) == Some(e),
{
    lemma_hex8_list(e);
    lemma_hex_tail(e, 0);
    let p = split(hex8_list(e), ',');
    lemma_hex_part_text(e[0]);
    lemma_hex_part_text(e[1]);
    lemma_hex_part_text(e[2]);
    lemma_hex_part_text(e[3]);
    lemma_hex_part_text(e[4]);
    lemma_hex_part_text(e[5]);
    lemma_hex_part_text(e[6]);
    lemma_hex_part_text(e[7]);
    assert(p[0] == hex_text(e[0] as nat));
    assert(p[1] == hex_text(e[1] as nat));
    assert(p[2] == hex_text(e[2] as nat));
    assert(p[3] == hex_text(e[3] as nat));
    assert(p[4] == hex_text(e[4] as nat));
    assert(p[5] == hex_text(e[5] as nat));
    assert(p[6] == hex_text(e[6] as nat));
    assert(p[7] == hex_text(e[7] as nat));
    assert([e[0], e[1], e[2], e[3], e[4], e[5], e[6], e[7]] =~= e);
}

/// The header lines read back.
proof fn lemma_header(rd: RdefModel)
    requires
        valid_creator(rd.creator),
    ensures
        after(no_rdef(), header_text(rd)) == Some(
            RdefModel { bindings: Seq::empty(), constant_buffers: Seq::empty(), ..rd },
        ),
        header_text(rd).len() > 0,
        header_text(rd).last() == '\n',
{
    let r0 = no_rdef();
    let l1 = "version=0x"@ + hex_padded(rd.target_version as nat, 8);
    let l2 = "flags=0x"@ + hex_text(rd.compile_flags as nat);
    let l3 = "creator="@ + rd.creator;
    lemma_version_line(r0, rd.target_version);
    let r1 = RdefModel { target_version: rd.target_version, ..r0 };
    lemma_flags_line(r1, rd.compile_flags);
    let r2 = RdefModel { compile_flags: rd.compile_flags, ..r1 };
    lemma_creator_line(r2, rd.creator);
    let r3 = RdefModel { creator: rd.creator, ..r2 };
    lemma_no_indent(l1);
    lemma_no_indent(l2);
    lemma_no_indent(l3);
    lemma_after_line(r0, 0, l1);
    let a1 = l1.push('\n');
    lemma_after_next(r0, r1, a1, 0, l2);
    let a2 = a1 + l2.push('\n');
    lemma_after_next(r0, r2, a2, 0, l3);
    let a3 = a2 + l3.push('\n');
    match rd.rd11_extra {
        Some(e) => {
            let l4 = "rd11="@ + hex8_list(e);
            lemma_rd11_line(r3, e);
            lemma_no_indent(l4);
            lemma_after_next(r0, r3, a3, 0, l4);
        },
        None => {
            assert(header_text(rd) =~= a3);
        },
    }
}

/// Whether resource definitions can be written as lines of `key=value`: their
/// names are words, and structs have no structs in them.
pub open spec fn valid_rdef(rd: RdefModel) -> bool {
    &&& valid_creator(rd.creator)
    &&& forall|i: int| 0 <= i < rd.bindings.len() ==> solid(#[trigger] rd.bindings[i].name)
    &&& forall|i: int|
        0 <= i < rd.constant_buffers.len() ==> valid_buffer(#[trigger] rd.constant_buffers[i])
}

/// Resource definitions written as lines of `key=value` read back as they were.
/// Left out are names that hold white space or are empty, slot ranges of which
/// only one number is there, and structs within structs, for which there is no
/// such text.
pub proof fn rdef_text_reads_back(rd: RdefModel)
    requires
        valid_rdef(rd),
    ensures
        rdef_lines(no_rdef(), text_lines(rdef_text(rd), false), 0) == Some(rd),
        !rdef_nests(rd),
{
    let h = header_text(rd);
    let nb = rd.bindings.len() as int;
    let nc = rd.constant_buffers.len() as int;
    let b = bindings_text(rd.bindings, nb);
    let c = cbuffers_text(rd.constant_buffers, nc);
    let r1 = RdefModel { bindings: Seq::empty(), constant_buffers: Seq::empty(), ..rd };
    let r2 = RdefModel { constant_buffers: Seq::empty(), ..rd };
    lemma_header(rd);
    lemma_bindings(r1, rd.bindings, nb);
    assert(r1.bindings + rd.bindings.take(nb) =~= rd.bindings);
    lemma_after(no_rdef(), h, b);
    assert((h + b).last() == '\n') by {
        if b.len() > 0 {
            assert((h + b).last() == b.last());
        } else {
            assert(h + b =~= h);
        }
    }
    lemma_buffers(r2, rd.constant_buffers, nc);
    assert(r2.constant_buffers + rd.constant_buffers.take(nc) =~= rd.constant_buffers);
    lemma_after(no_rdef(), h + b, c);
    lemma_no_nesting(rd);
}

proof fn lemma_no_nesting(rd: RdefModel)
    requires
        valid_rdef(rd),
    ensures
        !rdef_nests(rd),
{
    if rdef_nests(rd) {
        let i = choose|i: int|
            0 <= i < rd.constant_buffers.len() && cbuffer_nests(#[trigger] rd.constant_buffers[i]);
        let c = rd.constant_buffers[i];
        assert(valid_buffer(rd.constant_buffers[i]));
        let j = choose|j: int|
            0 <= j < c.variables.len() && type_nests(#[trigger] c.variables[j].var_type);
        assert(valid_variable(c.variables[j]));
        let t = c.variables[j].var_type;
        let k = choose|k: int|
            0 <= k < t.members.len() && #[trigger] t.members[k].member_type.members.len() > 0;
        assert(valid_member(t.members[k]));
    }
}

} // verus!
