//! Statistics read back.

use vstd::prelude::*;

use crate::bytes::{lemma_words_bytes, nth_word, word_at, words_bytes};
use crate::chunks::stat as spaced;
use crate::chunks::stat::{
    ShaderStats, counter_index, counter_line, counter_names, counters, counters_text, no_stats,
    reserved_text, stat_payload, stat_size, stat_word_count, stat_words, stats_of, with_counter,
};
use crate::grammar::stat::{
    bool_text, part_number, read_bool, reserved_line, sample_line, size_line, stat_entry,
    stat_line, stat_lines, stat_text,
};
use crate::lines::{
    is_clean, lemma_empty_line, lemma_one_line, lemma_split_once_concat, lemma_text_lines_concat,
    lemma_trim_trimmed, next_word, split, text_lines, trim, trim_start, words,
};
use crate::numerals::{dec_text, lemma_number_lacks, number_reads_back};
use crate::roundtrip::clean::{
    inked, is_plain_char, lemma_inked_concat, lemma_number_inked, lemma_word_inked, plain,
};
use crate::roundtrip::documents::lemma_first_word;
use crate::roundtrip::modifiers::{lemma_split_four, lemma_word_lacks};
use crate::roundtrip::names::is_word;
use crate::roundtrip::programs::lemma_not_contains;
use crate::text::{is_white, lacks};

verus! {

// ---------------------------------------------------------------------------
// Counters and their names
// ---------------------------------------------------------------------------

/// The number of the counter called `s`, told by a few characters.
#[verifier::opaque]
pub open spec fn counter_key(s: Seq<char>) -> int {
    if s.len() <= 9 {
        if s.len() <= 7 {
            if s[0] <= 'i' {
                if s.len() <= 5 {
                    if s.len() <= 4 {
                        12
                    } else {
                        13
                    }
                } else {
                    if s[0] <= 'd' {
                        2
                    } else {
                        5
                    }
                }
            } else {
                if s[1] <= 'e' {
                    if s.len() <= 5 {
                        1
                    } else {
                        9
                    }
                } else {
                    if s.len() <= 4 {
                        19
                    } else {
                        20
                    }
                }
            }
        } else {
            if s.len() <= 8 {
                if s[2] <= 'r' {
                    if s[0] <= 'b' {
                        30
                    } else {
                        6
                    }
                } else {
                    if s[4] <= 'b' {
                        17
                    } else {
                        if s[4] <= 'c' {
                            16
                        } else {
                            15
                        }
                    }
                }
            } else {
                if s[0] <= 'd' {
                    if s[0] <= 'a' {
                        11
                    } else {
                        29
                    }
                } else {
                    if s[0] <= 'f' {
                        4
                    } else {
                        32
                    }
                }
            }
        }
    } else {
        if s[2] <= 'a' {
            if s.len() <= 13 {
                if s[3] <= 'i' {
                    if s.len() <= 12 {
                        25
                    } else {
                        22
                    }
                } else {
                    if s.len() <= 11 {
                        7
                    } else {
                        24
                    }
                }
            } else {
                if s.len() <= 14 {
                    if s[0] <= 'g' {
                        23
                    } else {
                        27
                    }
                } else {
                    if s.len() <= 15 {
                        28
                    } else {
                        26
                    }
                }
            }
        } else {
            if s.len() <= 11 {
                if s[0] <= 'i' {
                    if s[0] <= 'c' {
                        21
                    } else {
                        31
                    }
                } else {
                    if s.len() <= 10 {
                        14
                    } else {
                        10
                    }
                }
            } else {
                if s[0] <= 'd' {
                    if s[1] <= 'e' {
                        3
                    } else {
                        8
                    }
                } else {
                    if s[0] <= 'i' {
                        0
                    } else {
                        18
                    }
                }
            }
        }
    }
}

/// Every counter's name is a word, tells its number, and is no other key.
pub proof fn lemma_counter_name(i: int)
    requires
        0 <= i < 33,
    ensures
        is_word(counter_names()[i]),
        counter_key(counter_names()[i]) == i,
        counter_names()[i] != "size"@,
        counter_names()[i] != "sample_frequency"@,
        counter_names()[i] != "reserved"@,
{
    reveal(counter_key);
    reveal_strlit("size");
    reveal_strlit("sample_frequency");
    reveal_strlit("reserved");
    let n = counter_names()[i];
    if i == 0 {
        reveal_strlit("instructions");
        assert(n == "instructions"@);
    } else if i == 1 {
        reveal_strlit("temps");
        assert(n == "temps"@);
    } else if i == 2 {
        reveal_strlit("defines");
        assert(n == "defines"@);
    } else if i == 3 {
        reveal_strlit("declarations");
        assert(n == "declarations"@);
    } else if i == 4 {
        reveal_strlit("float_ops");
        assert(n == "float_ops"@);
    } else if i == 5 {
        reveal_strlit("int_ops");
        assert(n == "int_ops"@);
    } else if i == 6 {
        reveal_strlit("uint_ops");
        assert(n == "uint_ops"@);
        assert(n[0] == 'u');
    } else if i == 7 {
        reveal_strlit("static_flow");
        assert(n == "static_flow"@);
    } else if i == 8 {
        reveal_strlit("dynamic_flow");
        assert(n == "dynamic_flow"@);
    } else if i == 9 {
        reveal_strlit("macros");
        assert(n == "macros"@);
    } else if i == 10 {
        reveal_strlit("temp_arrays");
        assert(n == "temp_arrays"@);
    } else if i == 11 {
        reveal_strlit("array_ops");
        assert(n == "array_ops"@);
    } else if i == 12 {
        reveal_strlit("cuts");
        assert(n == "cuts"@);
        assert(n[0] == 'c');
    } else if i == 13 {
        reveal_strlit("emits");
        assert(n == "emits"@);
    } else if i == 14 {
        reveal_strlit("tex_normal");
        assert(n == "tex_normal"@);
    } else if i == 15 {
        reveal_strlit("tex_load");
        assert(n == "tex_load"@);
        assert(n[0] == 't');
    } else if i == 16 {
        reveal_strlit("tex_comp");
        assert(n == "tex_comp"@);
        assert(n[0] == 't');
    } else if i == 17 {
        reveal_strlit("tex_bias");
        assert(n == "tex_bias"@);
        assert(n[0] == 't');
    } else if i == 18 {
        reveal_strlit("tex_gradient");
        assert(n == "tex_gradient"@);
    } else if i == 19 {
        reveal_strlit("movs");
        assert(n == "movs"@);
        assert(n[0] == 'm');
    } else if i == 20 {
        reveal_strlit("movcs");
        assert(n == "movcs"@);
    } else if i == 21 {
        reveal_strlit("conversions");
        assert(n == "conversions"@);
    } else if i == 22 {
        reveal_strlit("gs_input_prim");
        assert(n == "gs_input_prim"@);
    } else if i == 23 {
        reveal_strlit("gs_output_topo");
        assert(n == "gs_output_topo"@);
    } else if i == 24 {
        reveal_strlit("gs_max_verts");
        assert(n == "gs_max_verts"@);
    } else if i == 25 {
        reveal_strlit("gs_instances");
        assert(n == "gs_instances"@);
    } else if i == 26 {
        reveal_strlit("hs_control_points");
        assert(n == "hs_control_points"@);
    } else if i == 27 {
        reveal_strlit("hs_output_prim");
        assert(n == "hs_output_prim"@);
    } else if i == 28 {
        reveal_strlit("hs_partitioning");
        assert(n == "hs_partitioning"@);
    } else if i == 29 {
        reveal_strlit("ds_domain");
        assert(n == "ds_domain"@);
    } else if i == 30 {
        reveal_strlit("barriers");
        assert(n == "barriers"@);
        assert(n[0] == 'b');
    } else if i == 31 {
        reveal_strlit("interlocked");
        assert(n == "interlocked"@);
    } else {
        reveal_strlit("tex_store");
        assert(n == "tex_store"@);
    }
}

/// The counter of a name is found at its number.
pub proof fn lemma_counter_index(i: int, k: int)
    requires
        0 <= k <= i < 33,
    ensures
        counter_index(counter_names()[i], k) == Some(i),
    decreases i - k,
{
    lemma_counter_name(i);
    lemma_counter_name(k);
    if k < i {
        lemma_counter_index(i, k + 1);
    }
}

/// Setting a counter sets that one alone.
pub proof fn lemma_with_counter(s: ShaderStats, i: int, v: u32)
    requires
        0 <= i < 33,
    ensures
        counters(with_counter(s, i, v)) == counters(s).update(i, v),
        with_counter(s, i, v).is_sample_frequency == s.is_sample_frequency,
        with_counter(s, i, v).reserved == s.reserved,
        with_counter(s, i, v).raw_size == s.raw_size,
{
    let t = with_counter(s, i, v);
    let a = counters(t);
    let b = counters(s).update(i, v);
    assert forall|j: int| 0 <= j < 33 implies #[trigger] a[j] == b[j] by {
        if j == 0 {
            assert(a[0] == t.instruction_count);
        } else if j == 1 {
            assert(a[1] == t.temp_register_count);
        } else if j == 2 {
            assert(a[2] == t.define_count);
        } else if j == 3 {
            assert(a[3] == t.declaration_count);
        } else if j == 4 {
            assert(a[4] == t.float_instruction_count);
        } else if j == 5 {
            assert(a[5] == t.int_instruction_count);
        } else if j == 6 {
            assert(a[6] == t.uint_instruction_count);
        } else if j == 7 {
            assert(a[7] == t.static_flow_control_count);
        } else if j == 8 {
            assert(a[8] == t.dynamic_flow_control_count);
        } else if j == 9 {
            assert(a[9] == t.macro_instruction_count);
        } else if j == 10 {
            assert(a[10] == t.temp_array_count);
        } else if j == 11 {
            assert(a[11] == t.array_instruction_count);
        } else if j == 12 {
            assert(a[12] == t.cut_instruction_count);
        } else if j == 13 {
            assert(a[13] == t.emit_instruction_count);
        } else if j == 14 {
            assert(a[14] == t.texture_normal_instructions);
        } else if j == 15 {
            assert(a[15] == t.texture_load_instructions);
        } else if j == 16 {
            assert(a[16] == t.texture_comp_instructions);
        } else if j == 17 {
            assert(a[17] == t.texture_bias_instructions);
        } else if j == 18 {
            assert(a[18] == t.texture_gradient_instructions);
        } else if j == 19 {
            assert(a[19] == t.mov_instruction_count);
        } else if j == 20 {
            assert(a[20] == t.movc_instruction_count);
        } else if j == 21 {
            assert(a[21] == t.conversion_instruction_count);
        } else if j == 22 {
            assert(a[22] == t.gs_input_primitive);
        } else if j == 23 {
            assert(a[23] == t.gs_output_topology);
        } else if j == 24 {
            assert(a[24] == t.gs_max_output_vertex_count);
        } else if j == 25 {
            assert(a[25] == t.gs_instance_count);
        } else if j == 26 {
            assert(a[26] == t.hs_control_points);
        } else if j == 27 {
            assert(a[27] == t.hs_output_primitive);
        } else if j == 28 {
            assert(a[28] == t.hs_partitioning);
        } else if j == 29 {
            assert(a[29] == t.ds_tessellator_domain);
        } else if j == 30 {
            assert(a[30] == t.barrier_instructions);
        } else if j == 31 {
            assert(a[31] == t.interlocked_instructions);
        } else {
            assert(a[32] == t.texture_store_instructions);
        }
    }
    assert(a =~= b);
}

/// Statistics are their counters and the few other fields.
pub proof fn lemma_same_stats(s: ShaderStats, t: ShaderStats)
    requires
        counters(s) == counters(t),
        s.is_sample_frequency == t.is_sample_frequency,
        s.reserved == t.reserved,
        s.raw_size == t.raw_size,
    ensures
        s == t,
{
    let a = counters(s);
    let b = counters(t);
    assert(a[0] == s.instruction_count && b[0] == t.instruction_count);
    assert(a[1] == s.temp_register_count && b[1] == t.temp_register_count);
    assert(a[2] == s.define_count && b[2] == t.define_count);
    assert(a[3] == s.declaration_count && b[3] == t.declaration_count);
    assert(a[4] == s.float_instruction_count && b[4] == t.float_instruction_count);
    assert(a[5] == s.int_instruction_count && b[5] == t.int_instruction_count);
    assert(a[6] == s.uint_instruction_count && b[6] == t.uint_instruction_count);
    assert(a[7] == s.static_flow_control_count && b[7] == t.static_flow_control_count);
    assert(a[8] == s.dynamic_flow_control_count && b[8] == t.dynamic_flow_control_count);
    assert(a[9] == s.macro_instruction_count && b[9] == t.macro_instruction_count);
    assert(a[10] == s.temp_array_count && b[10] == t.temp_array_count);
    assert(a[11] == s.array_instruction_count && b[11] == t.array_instruction_count);
    assert(a[12] == s.cut_instruction_count && b[12] == t.cut_instruction_count);
    assert(a[13] == s.emit_instruction_count && b[13] == t.emit_instruction_count);
    assert(a[14] == s.texture_normal_instructions && b[14] == t.texture_normal_instructions);
    assert(a[15] == s.texture_load_instructions && b[15] == t.texture_load_instructions);
    assert(a[16] == s.texture_comp_instructions && b[16] == t.texture_comp_instructions);
    assert(a[17] == s.texture_bias_instructions && b[17] == t.texture_bias_instructions);
    assert(a[18] == s.texture_gradient_instructions && b[18] == t.texture_gradient_instructions);
    assert(a[19] == s.mov_instruction_count && b[19] == t.mov_instruction_count);
    assert(a[20] == s.movc_instruction_count && b[20] == t.movc_instruction_count);
    assert(a[21] == s.conversion_instruction_count && b[21] == t.conversion_instruction_count);
    assert(a[22] == s.gs_input_primitive && b[22] == t.gs_input_primitive);
    assert(a[23] == s.gs_output_topology && b[23] == t.gs_output_topology);
    assert(a[24] == s.gs_max_output_vertex_count && b[24] == t.gs_max_output_vertex_count);
    assert(a[25] == s.gs_instance_count && b[25] == t.gs_instance_count);
    assert(a[26] == s.hs_control_points && b[26] == t.hs_control_points);
    assert(a[27] == s.hs_output_primitive && b[27] == t.hs_output_primitive);
    assert(a[28] == s.hs_partitioning && b[28] == t.hs_partitioning);
    assert(a[29] == s.ds_tessellator_domain && b[29] == t.ds_tessellator_domain);
    assert(a[30] == s.barrier_instructions && b[30] == t.barrier_instructions);
    assert(a[31] == s.interlocked_instructions && b[31] == t.interlocked_instructions);
    assert(a[32] == s.texture_store_instructions && b[32] == t.texture_store_instructions);
}

/// Whether `t` has the fields of `s` that are no counters, and its first `k`
/// counters.
pub open spec fn agrees(s: ShaderStats, t: ShaderStats, k: int) -> bool {
    &&& s.is_sample_frequency == t.is_sample_frequency
    &&& s.reserved == t.reserved
    &&& s.raw_size == t.raw_size
    &&& forall|j: int| 0 <= j < k ==> #[trigger] counters(t)[j] == counters(s)[j]
}

/// Setting the next counter.
proof fn lemma_next_counter(s: ShaderStats, t: ShaderStats, k: int)
    requires
        0 <= k < 33,
        agrees(s, t, k),
    ensures
        agrees(s, with_counter(t, k, counters(s)[k]), k + 1),
{
    lemma_with_counter(t, k, counters(s)[k]);
}

proof fn lemma_all_counters(s: ShaderStats, t: ShaderStats)
    requires
        agrees(s, t, 33),
    ensures
        t == s,
{
    assert(counters(t) =~= counters(s));
    lemma_same_stats(t, s);
}

// ---------------------------------------------------------------------------
// Lines
// ---------------------------------------------------------------------------

/// A line without white space at its ends and without comments is clean.
proof fn lemma_plain_clean(s: Seq<char>)
    requires
        plain(s),
        s.len() > 0,
        s[0] != ' ',
        s.last() != ' ',
    ensures
        is_clean(s, false),
        is_clean(s, true),
{
    assert(is_plain_char(s[0]) && is_plain_char(s[s.len() - 1]));
    if s.contains('\n') {
        let i = choose|i: int| 0 <= i < s.len() && s[i] == '\n';
        assert(is_plain_char(s[i]));
    }
    assert forall|i: int| 0 <= i < s.len() - 1 implies !(#[trigger] s[i] == '/' && s[i + 1]
        == '/') by {
        assert(is_plain_char(s[i]));
    }
}

/// What is inked is a clean line, and trimmed.
proof fn lemma_inked_clean(s: Seq<char>)
    requires
        inked(s),
        s.len() > 0,
    ensures
        is_clean(s, false),
        is_clean(s, true),
        trim(s) == s,
{
    crate::roundtrip::clean::lemma_inked(s);
    assert(s[0] != ' ' && s[s.len() - 1] != ' ');
    lemma_plain_clean(s);
    lemma_trim_trimmed(s);
}

/// A line of a key and a value is taken apart at the equals sign.
pub proof fn lemma_key_value(s: ShaderStats, key: Seq<char>, val: Seq<char>)
    requires
        is_word(key),
        inked(val),
        val.len() > 0,
    ensures
        stat_line(s, key + seq!['='] + val) == stat_entry(s, key, val),
        is_clean(key + seq!['='] + val, false),
{
    broadcast use lemma_inked_concat;

    lemma_word_inked(key);
    lemma_word_lacks(key, '=');
    lemma_not_contains(key, '=');
    lemma_split_once_concat(key, '=', val);
    lemma_inked_clean(key);
    lemma_inked_clean(val);
    assert(inked(seq!['=']));
    lemma_inked_clean(key + seq!['='] + val);
}

/// The first line of a text of lines that are read one by one.
pub proof fn lemma_first_line(s: ShaderStats, s2: ShaderStats, line: Seq<char>, more: Seq<char>)
    requires
        is_clean(line, false),
        stat_line(s, line) == Some(s2),
    ensures
        stat_lines(s, text_lines(line.push('\n') + more, false), 0) == stat_lines(
            s2,
            text_lines(more, false),
            0,
        ),
{
    lemma_one_line(line, false);
    lemma_text_lines_concat(line.push('\n'), more, false);
    let ls = text_lines(line.push('\n') + more, false);
    let rest = text_lines(more, false);
    assert(ls == seq![line] + rest);
    assert(ls[0] == line);
    lemma_lines_skip(s2, ls, 1);
    assert(ls.skip(1) =~= rest);
}

/// Reading the lines from number `k` on is reading those lines alone.
proof fn lemma_lines_skip(s: ShaderStats, ls: Seq<Seq<char>>, k: int)
    requires
        0 <= k <= ls.len(),
    ensures
        stat_lines(s, ls, k) == stat_lines(s, ls.skip(k), 0),
    decreases ls.len() - k,
{
    let t = ls.skip(k);
    if k < ls.len() {
        assert(t[0] == ls[k]);
        match stat_line(s, ls[k]) {
            Some(s2) => {
                lemma_lines_skip(s2, ls, k + 1);
                lemma_lines_skip(s2, t, 1);
                assert(t.skip(1) =~= ls.skip(k + 1));
            },
            None => {},
        }
    }
}

/// The line of a counter sets that counter.
pub proof fn lemma_counter(s: ShaderStats, t: ShaderStats, k: int)
    requires
        0 <= k < 33,
    ensures
        stat_line(t, counter_line(s, '=', k)) == Some(with_counter(t, k, counters(s)[k])),
        is_clean(counter_line(s, '=', k), false),
{
    let key = counter_names()[k];
    let n = counters(s)[k] as nat;
    let val = dec_text(n);
    lemma_counter_name(k);
    lemma_counter_index(k, 0);
    lemma_number_inked(n);
    number_reads_back(n, 10, 0xffff_ffff);
    lemma_key_value(t, key, val);
    assert(counter_line(s, '=', k) =~= key + seq!['='] + val);
}

/// The counters from number `k` on read back.
proof fn lemma_counters(s: ShaderStats, t: ShaderStats, k: int)
    requires
        0 <= k <= 33,
        agrees(s, t, k),
    ensures
        stat_lines(t, text_lines(counters_text(s, '=', k), false), 0) == Some(s),
    decreases 33 - k,
{
    if k == 33 {
        lemma_empty_line(false);
        lemma_all_counters(s, t);
    } else {
        let line = counter_line(s, '=', k);
        let t2 = with_counter(t, k, counters(s)[k]);
        lemma_counter(s, t, k);
        lemma_first_line(t, t2, line, counters_text(s, '=', k + 1));
        lemma_next_counter(s, t, k);
        lemma_counters(s, t2, k + 1);
    }
}

/// The text of a number as a part of a list.
proof fn lemma_reserved_part(v: u32)
    ensures
        ({
            let t = dec_text(v as nat);
            &&& inked(t)
            &&& t.len() > 0
            &&& lacks(t, ',')
            &&& crate::numerals::parse_nat(trim(t), 10, 0xffff_ffff) == Some(v as nat)
        }),
{
    lemma_number_inked(v as nat);
    number_reads_back(v as nat, 10, 0xffff_ffff);
    lemma_number_lacks(v as nat, 10, ',');
    lemma_inked_clean(dec_text(v as nat));
}

/// The reserved words are taken apart at the commas.
proof fn lemma_reserved_parts(s: ShaderStats)
    ensures
        ({
            let v = reserved_text(s, ',');
            let parts = split(v, ',');
            &&& inked(v)
            &&& v.len() > 0
            &&& part_number(parts, 0) == Some(s.reserved[0] as nat)
            &&& part_number(parts, 1) == Some(s.reserved[1] as nat)
            &&& part_number(parts, 2) == Some(s.reserved[2] as nat)
            &&& part_number(parts, 3) == Some(s.reserved[3] as nat)
        }),
{
    broadcast use lemma_inked_concat;

    let a = dec_text(s.reserved[0] as nat);
    let b = dec_text(s.reserved[1] as nat);
    let c = dec_text(s.reserved[2] as nat);
    let d = dec_text(s.reserved[3] as nat);
    lemma_reserved_part(s.reserved[0]);
    lemma_reserved_part(s.reserved[1]);
    lemma_reserved_part(s.reserved[2]);
    lemma_reserved_part(s.reserved[3]);
    assert(inked(seq![',']));
    lemma_split_four(a, b, c, d);
    lemma_reserved_shape(a, b, c, d, ',');
}

pub proof fn lemma_reserved(s: ShaderStats, t: ShaderStats)
    ensures
        stat_line(t, reserved_line(s)) == Some(ShaderStats { reserved: s.reserved, ..t }),
        is_clean(reserved_line(s), false),
{
    reveal_strlit("reserved=");
    reveal_strlit("reserved");
    reveal_strlit("size");
    reveal_strlit("sample_frequency");
    lemma_reserved_parts(s);
    let val = reserved_text(s, ',');
    let key = "reserved"@;
    assert("reserved="@ =~= key + seq!['=']);
    assert(is_word(key));
    assert(key.len() == 8);
    lemma_key_value(t, key, val);
    let r = [s.reserved[0], s.reserved[1], s.reserved[2], s.reserved[3]];
    assert(r =~= s.reserved);
}

proof fn lemma_reserved_shape(a: Seq<char>, b: Seq<char>, c: Seq<char>, d: Seq<char>, sep: char)
    ensures
        a.push(sep) + (b.push(sep) + (c.push(sep) + d)) == a + (seq![sep] + (b + (seq![sep] + (c + (
        seq![sep] + d))))),
{
    assert(a.push(sep) + (b.push(sep) + (c.push(sep) + d)) =~= a + (seq![sep] + (b + (seq![sep] + (c
        + (seq![sep] + d))))));
}

pub proof fn lemma_size(s: ShaderStats, t: ShaderStats)
    ensures
        stat_line(t, size_line(s)) == Some(ShaderStats { raw_size: s.raw_size, ..t }),
        is_clean(size_line(s), false),
{
    reveal_strlit("size=");
    reveal_strlit("size");
    let n = s.raw_size as nat;
    let key = "size"@;
    lemma_number_inked(n);
    number_reads_back(n, 10, usize::MAX as nat);
    assert(is_word(key));
    assert("size="@ =~= key + seq!['=']);
    lemma_key_value(t, key, dec_text(n));
}

pub proof fn lemma_sample(s: ShaderStats, t: ShaderStats)
    ensures
        stat_line(t, sample_line(s)) == Some(
            ShaderStats { is_sample_frequency: s.is_sample_frequency, ..t },
        ),
        is_clean(sample_line(s), false),
{
    reveal_strlit("sample_frequency=");
    reveal_strlit("sample_frequency");
    reveal_strlit("size");
    reveal_strlit("true");
    reveal_strlit("false");
    let key = "sample_frequency"@;
    let b = bool_text(s.is_sample_frequency);
    assert(is_word(key));
    assert(inked(b));
    assert("sample_frequency="@ =~= key + seq!['=']);
    assert(key.len() != "size"@.len());
    assert(read_bool(b) == Some(s.is_sample_frequency));
    lemma_key_value(t, key, b);
}

/// Statistics written as lines of `key=value` read back as they were.
pub proof fn stat_text_reads_back(s: ShaderStats)
    ensures
        stat_lines(no_stats(), text_lines(stat_text(s), false), 0) == Some(s),
{
    let t0 = no_stats();
    let t1 = ShaderStats { raw_size: s.raw_size, ..t0 };
    let t2 = ShaderStats { is_sample_frequency: s.is_sample_frequency, ..t1 };
    let t3 = ShaderStats { reserved: s.reserved, ..t2 };
    let m3 = counters_text(s, '=', 0);
    let m2 = reserved_line(s).push('\n') + m3;
    let m1 = sample_line(s).push('\n') + m2;
    lemma_size(s, t0);
    lemma_first_line(t0, t1, size_line(s), m1);
    lemma_sample(s, t1);
    lemma_first_line(t1, t2, sample_line(s), m2);
    lemma_reserved(s, t2);
    lemma_first_line(t2, t3, reserved_line(s), m3);
    lemma_counters(s, t3, 0);
}

// ---------------------------------------------------------------------------
// Lines of a name and a value
// ---------------------------------------------------------------------------

/// The words of a word, a space and more.
proof fn lemma_words_first(w: Seq<char>, rest: Seq<char>)
    requires
        inked(w),
        w.len() > 0,
        rest.len() > 0,
        rest[0] != ' ',
        is_plain_char(rest[0]),
    ensures
        words(w + (seq![' '] + rest)) == seq![w] + words(rest),
{
    assert forall|i: int| 0 <= i < w.len() implies !is_white(#[trigger] w[i]) by {
        assert(is_plain_char(w[i]) && w[i] != ' ');
    }
    let tail = seq![' '] + rest;
    lemma_first_word(w, tail);
    reveal_with_fuel(trim_start, 2);
    assert(tail.skip(1) =~= rest);
    assert(trim_start(tail) == rest);
    assert(trim_start(rest) == rest);
    assert(next_word(tail) == next_word(rest));
    assert(words(tail) == words(rest));
}

/// The words of one word.
proof fn lemma_words_one(w: Seq<char>)
    requires
        inked(w),
        w.len() > 0,
    ensures
        words(w) == seq![w],
{
    assert forall|i: int| 0 <= i < w.len() implies !is_white(#[trigger] w[i]) by {
        assert(is_plain_char(w[i]) && w[i] != ' ');
    }
    let e = Seq::<char>::empty();
    assert(w + e =~= w);
    lemma_first_word(w, e);
    assert(next_word(e) is None);
    assert(words(e) =~= Seq::empty());
    assert(seq![w] + words(e) =~= seq![w]);
}

/// A name and a value are two words on a clean line.
pub proof fn lemma_name_value(key: Seq<char>, val: Seq<char>)
    requires
        is_word(key),
        inked(val),
        val.len() > 0,
    ensures
        words(key + (seq![' '] + val)) == seq![key, val],
        is_clean(key + (seq![' '] + val), false),
{
    lemma_word_inked(key);
    assert(is_plain_char(val[0]) && val[0] != ' ');
    lemma_words_first(key, val);
    lemma_words_one(val);
    assert(seq![key] + seq![val] =~= seq![key, val]);
    lemma_two_clean(key, val);
}

proof fn lemma_two_clean(key: Seq<char>, val: Seq<char>)
    requires
        inked(key),
        key.len() > 0,
        plain(val),
        val.len() > 0,
        val.last() != ' ',
    ensures
        is_clean(key + (seq![' '] + val), false),
{
    let s = key + (seq![' '] + val);
    assert forall|i: int| 0 <= i < s.len() implies is_plain_char(#[trigger] s[i]) by {
        if i < key.len() {
            assert(is_plain_char(key[i]));
        } else if i > key.len() {
            assert(is_plain_char(val[i - key.len() - 1]));
        }
    }
    assert(s[0] == key[0] && key[0] != ' ');
    assert(s.last() == val.last());
    lemma_plain_clean(s);
}

proof fn lemma_spaced_skip(s: ShaderStats, ls: Seq<Seq<char>>, k: int)
    requires
        0 <= k <= ls.len(),
    ensures
        spaced::stat_lines(s, ls, k) == spaced::stat_lines(s, ls.skip(k), 0),
    decreases ls.len() - k,
{
    let t = ls.skip(k);
    if k < ls.len() {
        assert(t[0] == ls[k]);
        match spaced::stat_line(s, words(ls[k])) {
            Some(s2) => {
                lemma_spaced_skip(s2, ls, k + 1);
                lemma_spaced_skip(s2, t, 1);
                assert(t.skip(1) =~= ls.skip(k + 1));
            },
            None => {},
        }
    }
}

pub proof fn lemma_spaced_line(s: ShaderStats, s2: ShaderStats, line: Seq<char>, more: Seq<char>)
    requires
        is_clean(line, false),
        spaced::stat_line(s, words(line)) == Some(s2),
    ensures
        spaced::stat_lines(s, text_lines(line.push('\n') + more, false), 0) == spaced::stat_lines(
            s2,
            text_lines(more, false),
            0,
        ),
{
    lemma_one_line(line, false);
    lemma_text_lines_concat(line.push('\n'), more, false);
    let ls = text_lines(line.push('\n') + more, false);
    let rest = text_lines(more, false);
    assert(ls == seq![line] + rest);
    assert(ls[0] == line);
    lemma_spaced_skip(s2, ls, 1);
    assert(ls.skip(1) =~= rest);
}

/// The line of a counter sets that counter.
pub proof fn lemma_spaced_counter(s: ShaderStats, t: ShaderStats, k: int)
    requires
        0 <= k < 33,
    ensures
        spaced::stat_line(t, words(counter_line(s, ' ', k))) == Some(
            with_counter(t, k, counters(s)[k]),
        ),
        is_clean(counter_line(s, ' ', k), false),
{
    let key = counter_names()[k];
    let n = counters(s)[k] as nat;
    let val = dec_text(n);
    lemma_counter_name(k);
    lemma_counter_index(k, 0);
    lemma_number_inked(n);
    number_reads_back(n, 10, 0xffff_ffff);
    lemma_name_value(key, val);
    assert(counter_line(s, ' ', k) =~= key + (seq![' '] + val));
}

proof fn lemma_spaced_counters(s: ShaderStats, t: ShaderStats, k: int)
    requires
        0 <= k <= 33,
        agrees(s, t, k),
    ensures
        spaced::stat_lines(t, text_lines(counters_text(s, ' ', k), false), 0) == Some(s),
    decreases 33 - k,
{
    if k == 33 {
        lemma_empty_line(false);
        lemma_all_counters(s, t);
    } else {
        let line = counter_line(s, ' ', k);
        let t2 = with_counter(t, k, counters(s)[k]);
        lemma_spaced_counter(s, t, k);
        lemma_spaced_line(t, t2, line, counters_text(s, ' ', k + 1));
        lemma_next_counter(s, t, k);
        lemma_spaced_counters(s, t2, k + 1);
    }
}

/// The words of four numbers.
proof fn lemma_four_words(a: Seq<char>, b: Seq<char>, c: Seq<char>, d: Seq<char>)
    requires
        inked(a),
        inked(b),
        inked(c),
        inked(d),
        a.len() > 0,
        b.len() > 0,
        c.len() > 0,
        d.len() > 0,
    ensures
        ({
            let v = a + (seq![' '] + (b + (seq![' '] + (c + (seq![' '] + d)))));
            &&& words(v) == seq![a, b, c, d]
            &&& plain(v)
            &&& v.last() != ' '
            &&& v.len() > 0
            &&& v[0] == a[0]
        }),
{
    broadcast use crate::roundtrip::clean::lemma_plain_concat;

    crate::roundtrip::clean::lemma_inked(a);
    crate::roundtrip::clean::lemma_inked(b);
    crate::roundtrip::clean::lemma_inked(c);
    crate::roundtrip::clean::lemma_inked(d);
    assert(is_plain_char(b[0]) && b[0] != ' ');
    assert(is_plain_char(c[0]) && c[0] != ' ');
    assert(is_plain_char(d[0]) && d[0] != ' ');
    let v3 = c + (seq![' '] + d);
    let v2 = b + (seq![' '] + v3);
    let v1 = a + (seq![' '] + v2);
    lemma_words_one(d);
    lemma_words_first(c, d);
    assert(v3[0] == c[0]);
    lemma_words_first(b, v3);
    assert(v2[0] == b[0]);
    lemma_words_first(a, v2);
    assert(seq![a] + (seq![b] + (seq![c] + seq![d])) =~= seq![a, b, c, d]);
    assert(plain(seq![' ']));
    assert(v1.last() == v2.last());
    assert(v2.last() == v3.last());
    assert(v3.last() == d.last());
}

pub proof fn lemma_spaced_reserved(s: ShaderStats, t: ShaderStats)
    ensures
        spaced::stat_line(t, words("reserved "@ + reserved_text(s, ' '))) == Some(
            ShaderStats { reserved: s.reserved, ..t },
        ),
        is_clean("reserved "@ + reserved_text(s, ' '), false),
{
    reveal_strlit("reserved ");
    reveal_strlit("reserved");
    reveal_strlit("size");
    reveal_strlit("sample_frequency");
    let a = dec_text(s.reserved[0] as nat);
    let b = dec_text(s.reserved[1] as nat);
    let c = dec_text(s.reserved[2] as nat);
    let d = dec_text(s.reserved[3] as nat);
    lemma_number_inked(s.reserved[0] as nat);
    lemma_number_inked(s.reserved[1] as nat);
    lemma_number_inked(s.reserved[2] as nat);
    lemma_number_inked(s.reserved[3] as nat);
    number_reads_back(s.reserved[0] as nat, 10, 0xffff_ffff);
    number_reads_back(s.reserved[1] as nat, 10, 0xffff_ffff);
    number_reads_back(s.reserved[2] as nat, 10, 0xffff_ffff);
    number_reads_back(s.reserved[3] as nat, 10, 0xffff_ffff);
    lemma_four_words(a, b, c, d);
    lemma_reserved_shape(a, b, c, d, ' ');
    let v = reserved_text(s, ' ');
    let key = "reserved"@;
    assert(is_word(key));
    lemma_word_inked(key);
    assert("reserved "@ + v =~= key + (seq![' '] + v));
    assert(is_plain_char(a[0]) && a[0] != ' ');
    lemma_words_first(key, v);
    lemma_two_clean(key, v);
    let ws = words("reserved "@ + v);
    assert(ws =~= seq![key, a, b, c, d]);
    assert([s.reserved[0], s.reserved[1], s.reserved[2], s.reserved[3]] =~= s.reserved);
}

/// The line of the size.
pub open spec fn spaced_size(s: ShaderStats) -> Seq<char> {
    "size "@ + dec_text(s.raw_size as nat)
}

/// The line of the sample frequency.
pub open spec fn spaced_sample(s: ShaderStats) -> Seq<char> {
    "sample_frequency "@ + dec_text(
        if s.is_sample_frequency {
            1
        } else {
            0
        },
    )
}

/// The line of the reserved words.
pub open spec fn spaced_reserved(s: ShaderStats) -> Seq<char> {
    "reserved "@ + reserved_text(s, ' ')
}

pub proof fn lemma_spaced_size(s: ShaderStats, t: ShaderStats)
    ensures
        spaced::stat_line(t, words(spaced_size(s))) == Some(
            ShaderStats { raw_size: s.raw_size, ..t },
        ),
        is_clean(spaced_size(s), false),
{
    reveal_strlit("size ");
    reveal_strlit("size");
    let n = s.raw_size as nat;
    lemma_number_inked(n);
    number_reads_back(n, 10, usize::MAX as nat);
    assert(is_word("size"@));
    lemma_name_value("size"@, dec_text(n));
    assert(spaced_size(s) =~= "size"@ + (seq![' '] + dec_text(n)));
}

pub proof fn lemma_spaced_sample(s: ShaderStats, t: ShaderStats)
    ensures
        spaced::stat_line(t, words(spaced_sample(s))) == Some(
            ShaderStats { is_sample_frequency: s.is_sample_frequency, ..t },
        ),
        is_clean(spaced_sample(s), false),
{
    reveal_strlit("size");
    reveal_strlit("sample_frequency ");
    reveal_strlit("sample_frequency");
    let f: nat = if s.is_sample_frequency {
        1
    } else {
        0
    };
    lemma_number_inked(f);
    number_reads_back(f, 10, 0xffff_ffff);
    assert(is_word("sample_frequency"@));
    lemma_name_value("sample_frequency"@, dec_text(f));
    assert(spaced_sample(s) =~= "sample_frequency"@ + (seq![' '] + dec_text(f)));
    assert("sample_frequency"@.len() != "size"@.len());
}

/// Statistics written as lines of a name and a value read back as they were.
pub proof fn spaced_stat_text_reads_back(s: ShaderStats)
    ensures
        spaced::stat_lines(no_stats(), text_lines(spaced::stat_text(s), false), 0) == Some(s),
{
    let t0 = no_stats();
    let t1 = ShaderStats { raw_size: s.raw_size, ..t0 };
    let t2 = ShaderStats { is_sample_frequency: s.is_sample_frequency, ..t1 };
    let t3 = ShaderStats { reserved: s.reserved, ..t2 };
    let m3 = counters_text(s, ' ', 0);
    let m2 = spaced_reserved(s).push('\n') + m3;
    let m1 = spaced_sample(s).push('\n') + m2;
    lemma_spaced_size(s, t0);
    lemma_spaced_line(t0, t1, spaced_size(s), m1);
    lemma_spaced_sample(s, t1);
    lemma_spaced_line(t1, t2, spaced_sample(s), m2);
    lemma_spaced_reserved(s, t2);
    lemma_spaced_line(t2, t3, spaced_reserved(s), m3);
    lemma_spaced_counters(s, t3, 0);
}

// ---------------------------------------------------------------------------
// Bytes
// ---------------------------------------------------------------------------

/// The words that the bytes of statistics hold.
proof fn lemma_payload_word(s: ShaderStats, i: int)
    requires
        0 <= i < 38,
        forall|k: int| stat_word_count(s) <= k < 38 ==> #[trigger] stat_words(s)[k] == 0,
    ensures
        nth_word(stat_payload(s), i) == stat_words(s)[i],
        stat_payload(s).len() == stat_size(s),
{
    let n = stat_word_count(s) as int;
    let front = stat_words(s).take(n);
    lemma_words_bytes(front);
    let b = words_bytes(front);
    let d = stat_payload(s);
    assert(d.len() == stat_size(s));
    if i < n {
        assert(front[i] == word_at(b, 4 * i));
        assert(d.subrange(4 * i, 4 * i + 4) =~= b.subrange(4 * i, 4 * i + 4));
        assert(front[i] == stat_words(s)[i]);
    } else {
        assert(stat_words(s)[i] == 0);
        if 4 * i + 4 <= d.len() {
            assert(n == 38 || 4 * n + 4 > d.len());
        }
    }
}

/// Statistics written as a chunk are found in it again, provided the chunk is of
/// a size that can be read and has room for all that is not nought.
pub proof fn stat_payload_reads_back(s: ShaderStats)
    requires
        s.raw_size >= 116,
        forall|k: int| stat_word_count(s) <= k < 38 ==> #[trigger] stat_words(s)[k] == 0,
    ensures
        stats_of(stat_payload(s)) == s,
        stat_payload(s).len() >= 116,
{
    let d = stat_payload(s);
    let w = stat_words(s);
    let t = stats_of(d);
    lemma_payload_word(s, 0);
    lemma_payload_word(s, 0);
    assert(t.instruction_count == s.instruction_count);
    lemma_payload_word(s, 1);
    assert(t.temp_register_count == s.temp_register_count);
    lemma_payload_word(s, 2);
    assert(t.define_count == s.define_count);
    lemma_payload_word(s, 3);
    assert(t.declaration_count == s.declaration_count);
    lemma_payload_word(s, 4);
    assert(t.float_instruction_count == s.float_instruction_count);
    lemma_payload_word(s, 5);
    assert(t.int_instruction_count == s.int_instruction_count);
    lemma_payload_word(s, 6);
    assert(t.uint_instruction_count == s.uint_instruction_count);
    lemma_payload_word(s, 7);
    assert(t.static_flow_control_count == s.static_flow_control_count);
    lemma_payload_word(s, 8);
    assert(t.dynamic_flow_control_count == s.dynamic_flow_control_count);
    lemma_payload_word(s, 9);
    assert(t.macro_instruction_count == s.macro_instruction_count);
    lemma_payload_word(s, 10);
    assert(t.temp_array_count == s.temp_array_count);
    lemma_payload_word(s, 11);
    assert(t.array_instruction_count == s.array_instruction_count);
    lemma_payload_word(s, 12);
    assert(t.cut_instruction_count == s.cut_instruction_count);
    lemma_payload_word(s, 13);
    assert(t.emit_instruction_count == s.emit_instruction_count);
    lemma_payload_word(s, 14);
    assert(t.texture_normal_instructions == s.texture_normal_instructions);
    lemma_payload_word(s, 15);
    assert(t.texture_load_instructions == s.texture_load_instructions);
    lemma_payload_word(s, 16);
    assert(t.texture_comp_instructions == s.texture_comp_instructions);
    lemma_payload_word(s, 17);
    assert(t.texture_bias_instructions == s.texture_bias_instructions);
    lemma_payload_word(s, 18);
    assert(t.texture_gradient_instructions == s.texture_gradient_instructions);
    lemma_payload_word(s, 19);
    assert(t.mov_instruction_count == s.mov_instruction_count);
    lemma_payload_word(s, 20);
    assert(t.movc_instruction_count == s.movc_instruction_count);
    lemma_payload_word(s, 21);
    assert(t.conversion_instruction_count == s.conversion_instruction_count);
    lemma_payload_word(s, 24);
    assert(t.gs_input_primitive == s.gs_input_primitive);
    lemma_payload_word(s, 25);
    assert(t.gs_output_topology == s.gs_output_topology);
    lemma_payload_word(s, 26);
    assert(t.gs_max_output_vertex_count == s.gs_max_output_vertex_count);
    lemma_payload_word(s, 29);
    assert(t.is_sample_frequency == s.is_sample_frequency);
    lemma_payload_word(s, 30);
    assert(t.gs_instance_count == s.gs_instance_count);
    lemma_payload_word(s, 31);
    assert(t.hs_control_points == s.hs_control_points);
    lemma_payload_word(s, 32);
    assert(t.hs_output_primitive == s.hs_output_primitive);
    lemma_payload_word(s, 33);
    assert(t.hs_partitioning == s.hs_partitioning);
    lemma_payload_word(s, 34);
    assert(t.ds_tessellator_domain == s.ds_tessellator_domain);
    lemma_payload_word(s, 35);
    assert(t.barrier_instructions == s.barrier_instructions);
    lemma_payload_word(s, 36);
    assert(t.interlocked_instructions == s.interlocked_instructions);
    lemma_payload_word(s, 37);
    assert(t.texture_store_instructions == s.texture_store_instructions);
    lemma_payload_word(s, 22);
    lemma_payload_word(s, 23);
    lemma_payload_word(s, 27);
    lemma_payload_word(s, 28);
    assert(t.reserved =~= s.reserved);
    assert(t.raw_size == s.raw_size);
}

} // verus!
