//! Where each figure of the statistics stands.

use vstd::prelude::*;

use crate::bytes::{lemma_words_bytes, word_at, words_bytes};
use crate::chunks::stat as spaced;
use crate::chunks::stat::{
    ShaderStats, count_line, counter_names, frequency_line, some_line, stat_payload,
    stat_word_count, stat_words, stats_of, stats_summary, with_counter,
};
use crate::grammar::stat::stat_line;
use crate::lines::words;
use crate::numerals::{dec_text, number_reads_back};
use crate::roundtrip::clean::lemma_number_inked;
use crate::roundtrip::stats::{
    lemma_counter_index, lemma_counter_name, lemma_key_value, lemma_name_value, lemma_reserved,
    lemma_sample, lemma_size, lemma_spaced_reserved, lemma_spaced_sample, lemma_spaced_size,
};

verus! {

/// The word at byte `p`, nought where the data ends before.
pub open spec fn figure(d: Seq<u8>, p: int) -> u32 {
    if p + 4 <= d.len() {
        word_at(d, p)
    } else {
        0
    }
}

/// Each figure is the little-endian word at its own place in the chunk; those of
/// later shader models are nought in a chunk that ends before them.
pub proof fn figures_have_their_places(d: Seq<u8>)
    requires
        d.len() <= usize::MAX,
    ensures
        ({
            let s = stats_of(d);
            &&& s.instruction_count == figure(d, 0)
            &&& s.temp_register_count == figure(d, 4)
            &&& s.define_count == figure(d, 8)
            &&& s.declaration_count == figure(d, 12)
            &&& s.float_instruction_count == figure(d, 16)
            &&& s.int_instruction_count == figure(d, 20)
            &&& s.uint_instruction_count == figure(d, 24)
            &&& s.static_flow_control_count == figure(d, 28)
            &&& s.dynamic_flow_control_count == figure(d, 32)
            &&& s.macro_instruction_count == figure(d, 36)
            &&& s.temp_array_count == figure(d, 40)
            &&& s.array_instruction_count == figure(d, 44)
            &&& s.cut_instruction_count == figure(d, 48)
            &&& s.emit_instruction_count == figure(d, 52)
            &&& s.texture_normal_instructions == figure(d, 56)
            &&& s.texture_load_instructions == figure(d, 60)
            &&& s.texture_comp_instructions == figure(d, 64)
            &&& s.texture_bias_instructions == figure(d, 68)
            &&& s.texture_gradient_instructions == figure(d, 72)
            &&& s.mov_instruction_count == figure(d, 76)
            &&& s.movc_instruction_count == figure(d, 80)
            &&& s.conversion_instruction_count == figure(d, 84)
            &&& s.gs_input_primitive == figure(d, 96)
            &&& s.gs_output_topology == figure(d, 100)
            &&& s.gs_max_output_vertex_count == figure(d, 104)
            &&& s.gs_instance_count == figure(d, 120)
            &&& s.hs_control_points == figure(d, 124)
            &&& s.hs_output_primitive == figure(d, 128)
            &&& s.hs_partitioning == figure(d, 132)
            &&& s.ds_tessellator_domain == figure(d, 136)
            &&& s.barrier_instructions == figure(d, 140)
            &&& s.interlocked_instructions == figure(d, 144)
            &&& s.texture_store_instructions == figure(d, 148)
            &&& s.is_sample_frequency == (figure(d, 116) != 0)
            &&& s.reserved[0] == figure(d, 88)
            &&& s.reserved[1] == figure(d, 92)
            &&& s.reserved[2] == figure(d, 108)
            &&& s.reserved[3] == figure(d, 112)
            &&& s.raw_size == d.len()
        }),
{
}

/// Whether the bytes say that word at that place, where they reach that far.
pub open spec fn says(d: Seq<u8>, p: int, w: u32) -> bool {
    p + 4 <= d.len() ==> word_at(d, p) == w
}

proof fn lemma_says(s: ShaderStats, k: int)
    requires
        0 <= k < 38,
    ensures
        says(stat_payload(s), 4 * k, stat_words(s)[k]),
{
    let n = stat_word_count(s) as int;
    let front = stat_words(s).take(n);
    lemma_words_bytes(front);
    let b = words_bytes(front);
    let d = stat_payload(s);
    if 4 * k + 4 <= d.len() {
        assert(k < n);
        assert(front[k] == word_at(b, 4 * k));
        assert(d.subrange(4 * k, 4 * k + 4) =~= b.subrange(4 * k, 4 * k + 4));
    }
}

/// Each figure is written to its own place, as far as the chunk reaches; the chunk
/// has the size that was recorded, or 120 bytes where none was.
pub proof fn figures_are_written_to_their_places(s: ShaderStats)
    ensures
        ({
            let d = stat_payload(s);
            &&& d.len() == if s.raw_size > 0 {
                s.raw_size as int
            } else {
                120
            }
            &&& says(d, 0, s.instruction_count)
            &&& says(d, 4, s.temp_register_count)
            &&& says(d, 8, s.define_count)
            &&& says(d, 12, s.declaration_count)
            &&& says(d, 16, s.float_instruction_count)
            &&& says(d, 20, s.int_instruction_count)
            &&& says(d, 24, s.uint_instruction_count)
            &&& says(d, 28, s.static_flow_control_count)
            &&& says(d, 32, s.dynamic_flow_control_count)
            &&& says(d, 36, s.macro_instruction_count)
            &&& says(d, 40, s.temp_array_count)
            &&& says(d, 44, s.array_instruction_count)
            &&& says(d, 48, s.cut_instruction_count)
            &&& says(d, 52, s.emit_instruction_count)
            &&& says(d, 56, s.texture_normal_instructions)
            &&& says(d, 60, s.texture_load_instructions)
            &&& says(d, 64, s.texture_comp_instructions)
            &&& says(d, 68, s.texture_bias_instructions)
            &&& says(d, 72, s.texture_gradient_instructions)
            &&& says(d, 76, s.mov_instruction_count)
            &&& says(d, 80, s.movc_instruction_count)
            &&& says(d, 84, s.conversion_instruction_count)
            &&& says(d, 96, s.gs_input_primitive)
            &&& says(d, 100, s.gs_output_topology)
            &&& says(d, 104, s.gs_max_output_vertex_count)
            &&& says(d, 120, s.gs_instance_count)
            &&& says(d, 124, s.hs_control_points)
            &&& says(d, 128, s.hs_output_primitive)
            &&& says(d, 132, s.hs_partitioning)
            &&& says(d, 136, s.ds_tessellator_domain)
            &&& says(d, 140, s.barrier_instructions)
            &&& says(d, 144, s.interlocked_instructions)
            &&& says(d, 148, s.texture_store_instructions)
            &&& says(
                d,
                116,
                if s.is_sample_frequency {
                    1
                } else {
                    0
                },
            )
            &&& says(d, 88, s.reserved[0])
            &&& says(d, 92, s.reserved[1])
            &&& says(d, 108, s.reserved[2])
            &&& says(d, 112, s.reserved[3])
        }),
{
    let n = stat_word_count(s) as int;
    lemma_words_bytes(stat_words(s).take(n));
    lemma_says(s, 0);
    lemma_says(s, 1);
    lemma_says(s, 2);
    lemma_says(s, 3);
    lemma_says(s, 4);
    lemma_says(s, 5);
    lemma_says(s, 6);
    lemma_says(s, 7);
    lemma_says(s, 8);
    lemma_says(s, 9);
    lemma_says(s, 10);
    lemma_says(s, 11);
    lemma_says(s, 12);
    lemma_says(s, 13);
    lemma_says(s, 14);
    lemma_says(s, 15);
    lemma_says(s, 16);
    lemma_says(s, 17);
    lemma_says(s, 18);
    lemma_says(s, 19);
    lemma_says(s, 20);
    lemma_says(s, 21);
    lemma_says(s, 22);
    lemma_says(s, 23);
    lemma_says(s, 24);
    lemma_says(s, 25);
    lemma_says(s, 26);
    lemma_says(s, 27);
    lemma_says(s, 28);
    lemma_says(s, 29);
    lemma_says(s, 30);
    lemma_says(s, 31);
    lemma_says(s, 32);
    lemma_says(s, 33);
    lemma_says(s, 34);
    lemma_says(s, 35);
    lemma_says(s, 36);
    lemma_says(s, 37);
}

/// The line of a counter with that number and value.
proof fn lemma_counter_line(t: ShaderStats, i: int, v: u32)
    requires
        0 <= i < 33,
    ensures
        key_sets(t, counter_names()[i], dec_text(v as nat), with_counter(t, i, v)),
{
    reveal(key_sets);
    let key = counter_names()[i];
    let val = dec_text(v as nat);
    lemma_counter_name(i);
    lemma_counter_index(i, 0);
    lemma_number_inked(v as nat);
    number_reads_back(v as nat, 10, 0xffff_ffff);
    lemma_key_value(t, key, val);
    lemma_name_value(key, val);
}

/// Whether a line with that key and a value sets the statistics `t` to `s`, written
/// with an equals sign or a space.
#[verifier::opaque]
pub open spec fn key_sets(t: ShaderStats, key: Seq<char>, val: Seq<char>, s: ShaderStats) -> bool {
    &&& stat_line(t, key + seq!['='] + val) == Some(s)
    &&& spaced::stat_line(t, words(key + (seq![' '] + val))) == Some(s)
}

/// Each of the first keys of counters sets the counter it speaks of, and nothing else.
pub proof fn first_keys_set_their_counters(t: ShaderStats, v: u32)
    ensures
        key_sets(t, "instructions"@, dec_text(v as nat), (ShaderStats { instruction_count: v, ..t })),
        key_sets(t, "temps"@, dec_text(v as nat), (ShaderStats { temp_register_count: v, ..t })),
        key_sets(t, "defines"@, dec_text(v as nat), (ShaderStats { define_count: v, ..t })),
        key_sets(t, "declarations"@, dec_text(v as nat), (ShaderStats { declaration_count: v, ..t })),
        key_sets(t, "float_ops"@, dec_text(v as nat), (ShaderStats { float_instruction_count: v, ..t })),
        key_sets(t, "int_ops"@, dec_text(v as nat), (ShaderStats { int_instruction_count: v, ..t })),
        key_sets(t, "uint_ops"@, dec_text(v as nat), (ShaderStats { uint_instruction_count: v, ..t })),
        key_sets(t, "static_flow"@, dec_text(v as nat), (ShaderStats { static_flow_control_count: v, ..t })),
        key_sets(t, "dynamic_flow"@, dec_text(v as nat), (ShaderStats { dynamic_flow_control_count: v, ..t })),
        key_sets(t, "macros"@, dec_text(v as nat), (ShaderStats { macro_instruction_count: v, ..t })),
        key_sets(t, "temp_arrays"@, dec_text(v as nat), (ShaderStats { temp_array_count: v, ..t })),
{
    lemma_counter_line(t, 0, v);
    lemma_counter_line(t, 1, v);
    lemma_counter_line(t, 2, v);
    lemma_counter_line(t, 3, v);
    lemma_counter_line(t, 4, v);
    lemma_counter_line(t, 5, v);
    lemma_counter_line(t, 6, v);
    lemma_counter_line(t, 7, v);
    lemma_counter_line(t, 8, v);
    lemma_counter_line(t, 9, v);
    lemma_counter_line(t, 10, v);
}

/// Each of the next keys of counters sets the counter it speaks of, and nothing else.
pub proof fn next_keys_set_their_counters(t: ShaderStats, v: u32)
    ensures
        key_sets(t, "array_ops"@, dec_text(v as nat), (ShaderStats { array_instruction_count: v, ..t })),
        key_sets(t, "cuts"@, dec_text(v as nat), (ShaderStats { cut_instruction_count: v, ..t })),
        key_sets(t, "emits"@, dec_text(v as nat), (ShaderStats { emit_instruction_count: v, ..t })),
        key_sets(t, "tex_normal"@, dec_text(v as nat), (ShaderStats { texture_normal_instructions: v, ..t })),
        key_sets(t, "tex_load"@, dec_text(v as nat), (ShaderStats { texture_load_instructions: v, ..t })),
        key_sets(t, "tex_comp"@, dec_text(v as nat), (ShaderStats { texture_comp_instructions: v, ..t })),
        key_sets(t, "tex_bias"@, dec_text(v as nat), (ShaderStats { texture_bias_instructions: v, ..t })),
        key_sets(t, "tex_gradient"@, dec_text(v as nat), (ShaderStats { texture_gradient_instructions: v, ..t })),
        key_sets(t, "movs"@, dec_text(v as nat), (ShaderStats { mov_instruction_count: v, ..t })),
        key_sets(t, "movcs"@, dec_text(v as nat), (ShaderStats { movc_instruction_count: v, ..t })),
        key_sets(t, "conversions"@, dec_text(v as nat), (ShaderStats { conversion_instruction_count: v, ..t })),
{
    lemma_counter_line(t, 11, v);
    lemma_counter_line(t, 12, v);
    lemma_counter_line(t, 13, v);
    lemma_counter_line(t, 14, v);
    lemma_counter_line(t, 15, v);
    lemma_counter_line(t, 16, v);
    lemma_counter_line(t, 17, v);
    lemma_counter_line(t, 18, v);
    lemma_counter_line(t, 19, v);
    lemma_counter_line(t, 20, v);
    lemma_counter_line(t, 21, v);
}

/// Each of the last keys of counters sets the counter it speaks of, and nothing else.
pub proof fn last_keys_set_their_counters(t: ShaderStats, v: u32)
    ensures
        key_sets(t, "gs_input_prim"@, dec_text(v as nat), (ShaderStats { gs_input_primitive: v, ..t })),
        key_sets(t, "gs_output_topo"@, dec_text(v as nat), (ShaderStats { gs_output_topology: v, ..t })),
        key_sets(t, "gs_max_verts"@, dec_text(v as nat), (ShaderStats { gs_max_output_vertex_count: v, ..t })),
        key_sets(t, "gs_instances"@, dec_text(v as nat), (ShaderStats { gs_instance_count: v, ..t })),
        key_sets(t, "hs_control_points"@, dec_text(v as nat), (ShaderStats { hs_control_points: v, ..t })),
        key_sets(t, "hs_output_prim"@, dec_text(v as nat), (ShaderStats { hs_output_primitive: v, ..t })),
        key_sets(t, "hs_partitioning"@, dec_text(v as nat), (ShaderStats { hs_partitioning: v, ..t })),
        key_sets(t, "ds_domain"@, dec_text(v as nat), (ShaderStats { ds_tessellator_domain: v, ..t })),
        key_sets(t, "barriers"@, dec_text(v as nat), (ShaderStats { barrier_instructions: v, ..t })),
        key_sets(t, "interlocked"@, dec_text(v as nat), (ShaderStats { interlocked_instructions: v, ..t })),
        key_sets(t, "tex_store"@, dec_text(v as nat), (ShaderStats { texture_store_instructions: v, ..t })),
{
    lemma_counter_line(t, 22, v);
    lemma_counter_line(t, 23, v);
    lemma_counter_line(t, 24, v);
    lemma_counter_line(t, 25, v);
    lemma_counter_line(t, 26, v);
    lemma_counter_line(t, 27, v);
    lemma_counter_line(t, 28, v);
    lemma_counter_line(t, 29, v);
    lemma_counter_line(t, 30, v);
    lemma_counter_line(t, 31, v);
    lemma_counter_line(t, 32, v);
}

/// Whether the text holds that line.
pub open spec fn shows(text: Seq<char>, line: Seq<char>) -> bool {
    exists|a: Seq<char>, b: Seq<char>| text == #[trigger] (a + line + b)
}

/// A line that says how many there are of something.
pub open spec fn how_many(n: u32, what: Seq<char>) -> Seq<char> {
    "//   "@ + dec_text(n as nat) + what + "\n"@
}

/// A text that shows a line shows it with more behind.
proof fn lemma_shows_more(t: Seq<char>, line: Seq<char>, more: Seq<char>)
    requires
        shows(t, line),
    ensures
        shows(t + more, line),
{
    let (a, b) = choose|a: Seq<char>, b: Seq<char>| t == #[trigger] (a + line + b);
    assert(t + more =~= a + line + (b + more));
}

proof fn lemma_count_line(n: u32, what: Seq<char>)
    ensures
        count_line(n, what) == how_many(n, what),
{
    assert(count_line(n, what) =~= how_many(n, what));
}

/// A line put behind a text is shown.
proof fn lemma_shows_last(t: Seq<char>, line: Seq<char>)
    ensures
        shows(t + line, line),
{
    assert(t + line =~= t + line + Seq::<char>::empty());
}

/// The summary shows the number of instructions and of temporary registers, and of
/// everything else that there is, each under its own name.
pub proof fn figures_are_shown(s: ShaderStats)
    ensures
        ({
            let t = stats_summary(s);
            &&& shows(t, how_many(s.instruction_count, " instruction(s)"@))
            &&& shows(t, how_many(s.temp_register_count, " temp register(s)"@))
            &&& s.declaration_count > 0 ==> shows(
                t,
                how_many(s.declaration_count, " declaration(s)"@),
            )
            &&& s.float_instruction_count > 0 ==> shows(
                t,
                how_many(s.float_instruction_count, " float instruction(s)"@),
            )
            &&& s.int_instruction_count > 0 ==> shows(
                t,
                how_many(s.int_instruction_count, " int instruction(s)"@),
            )
            &&& s.uint_instruction_count > 0 ==> shows(
                t,
                how_many(s.uint_instruction_count, " uint instruction(s)"@),
            )
            &&& s.texture_normal_instructions > 0 ==> shows(
                t,
                how_many(s.texture_normal_instructions, " texture normal instruction(s)"@),
            )
            &&& s.texture_load_instructions > 0 ==> shows(
                t,
                how_many(s.texture_load_instructions, " texture load instruction(s)"@),
            )
            &&& s.static_flow_control_count > 0 ==> shows(
                t,
                how_many(s.static_flow_control_count, " static flow control(s)"@),
            )
            &&& s.dynamic_flow_control_count > 0 ==> shows(
                t,
                how_many(s.dynamic_flow_control_count, " dynamic flow control(s)"@),
            )
            &&& s.cut_instruction_count > 0 ==> shows(
                t,
                how_many(s.cut_instruction_count, " cut instruction(s)"@),
            )
            &&& s.emit_instruction_count > 0 ==> shows(
                t,
                how_many(s.emit_instruction_count, " emit instruction(s)"@),
            )
            &&& s.is_sample_frequency ==> shows(t, "//   sample-frequency execution\n"@)
        }),
{
    let t0 = "// Statistics:\n"@;
    let l1 = count_line(s.instruction_count, " instruction(s)"@);
    let t1 = t0 + l1;
    let l2 = count_line(s.temp_register_count, " temp register(s)"@);
    let t2 = t1 + l2;
    let l3 = some_line(s.declaration_count, " declaration(s)"@);
    let t3 = t2 + l3;
    let l4 = some_line(s.float_instruction_count, " float instruction(s)"@);
    let t4 = t3 + l4;
    let l5 = some_line(s.int_instruction_count, " int instruction(s)"@);
    let t5 = t4 + l5;
    let l6 = some_line(s.uint_instruction_count, " uint instruction(s)"@);
    let t6 = t5 + l6;
    let l7 = some_line(s.texture_normal_instructions, " texture normal instruction(s)"@);
    let t7 = t6 + l7;
    let l8 = some_line(s.texture_load_instructions, " texture load instruction(s)"@);
    let t8 = t7 + l8;
    let l9 = some_line(s.static_flow_control_count, " static flow control(s)"@);
    let t9 = t8 + l9;
    let l10 = some_line(s.dynamic_flow_control_count, " dynamic flow control(s)"@);
    let t10 = t9 + l10;
    let l11 = some_line(s.cut_instruction_count, " cut instruction(s)"@);
    let t11 = t10 + l11;
    let l12 = some_line(s.emit_instruction_count, " emit instruction(s)"@);
    let t12 = t11 + l12;
    let l13 = frequency_line(s);
    let t13 = t12 + l13;
    lemma_count_line(s.instruction_count, " instruction(s)"@);
    lemma_count_line(s.temp_register_count, " temp register(s)"@);
    lemma_count_line(s.declaration_count, " declaration(s)"@);
    lemma_count_line(s.float_instruction_count, " float instruction(s)"@);
    lemma_count_line(s.int_instruction_count, " int instruction(s)"@);
    lemma_count_line(s.uint_instruction_count, " uint instruction(s)"@);
    lemma_count_line(s.texture_normal_instructions, " texture normal instruction(s)"@);
    lemma_count_line(s.texture_load_instructions, " texture load instruction(s)"@);
    lemma_count_line(s.static_flow_control_count, " static flow control(s)"@);
    lemma_count_line(s.dynamic_flow_control_count, " dynamic flow control(s)"@);
    lemma_count_line(s.cut_instruction_count, " cut instruction(s)"@);
    lemma_count_line(s.emit_instruction_count, " emit instruction(s)"@);
    assert(t13 == stats_summary(s));
    assert(shows(t13, l1)) by {
        lemma_shows_last(t0, l1);
        lemma_shows_more(t1, l1, l2);
        lemma_shows_more(t2, l1, l3);
        lemma_shows_more(t3, l1, l4);
        lemma_shows_more(t4, l1, l5);
        lemma_shows_more(t5, l1, l6);
        lemma_shows_more(t6, l1, l7);
        lemma_shows_more(t7, l1, l8);
        lemma_shows_more(t8, l1, l9);
        lemma_shows_more(t9, l1, l10);
        lemma_shows_more(t10, l1, l11);
        lemma_shows_more(t11, l1, l12);
        lemma_shows_more(t12, l1, l13);
    }
    assert(shows(t13, l2)) by {
        lemma_shows_last(t1, l2);
        lemma_shows_more(t2, l2, l3);
        lemma_shows_more(t3, l2, l4);
        lemma_shows_more(t4, l2, l5);
        lemma_shows_more(t5, l2, l6);
        lemma_shows_more(t6, l2, l7);
        lemma_shows_more(t7, l2, l8);
        lemma_shows_more(t8, l2, l9);
        lemma_shows_more(t9, l2, l10);
        lemma_shows_more(t10, l2, l11);
        lemma_shows_more(t11, l2, l12);
        lemma_shows_more(t12, l2, l13);
    }
    assert(shows(t13, l3)) by {
        lemma_shows_last(t2, l3);
        lemma_shows_more(t3, l3, l4);
        lemma_shows_more(t4, l3, l5);
        lemma_shows_more(t5, l3, l6);
        lemma_shows_more(t6, l3, l7);
        lemma_shows_more(t7, l3, l8);
        lemma_shows_more(t8, l3, l9);
        lemma_shows_more(t9, l3, l10);
        lemma_shows_more(t10, l3, l11);
        lemma_shows_more(t11, l3, l12);
        lemma_shows_more(t12, l3, l13);
    }
    assert(shows(t13, l4)) by {
        lemma_shows_last(t3, l4);
        lemma_shows_more(t4, l4, l5);
        lemma_shows_more(t5, l4, l6);
        lemma_shows_more(t6, l4, l7);
        lemma_shows_more(t7, l4, l8);
        lemma_shows_more(t8, l4, l9);
        lemma_shows_more(t9, l4, l10);
        lemma_shows_more(t10, l4, l11);
        lemma_shows_more(t11, l4, l12);
        lemma_shows_more(t12, l4, l13);
    }
    assert(shows(t13, l5)) by {
        lemma_shows_last(t4, l5);
        lemma_shows_more(t5, l5, l6);
        lemma_shows_more(t6, l5, l7);
        lemma_shows_more(t7, l5, l8);
        lemma_shows_more(t8, l5, l9);
        lemma_shows_more(t9, l5, l10);
        lemma_shows_more(t10, l5, l11);
        lemma_shows_more(t11, l5, l12);
        lemma_shows_more(t12, l5, l13);
    }
    assert(shows(t13, l6)) by {
        lemma_shows_last(t5, l6);
        lemma_shows_more(t6, l6, l7);
        lemma_shows_more(t7, l6, l8);
        lemma_shows_more(t8, l6, l9);
        lemma_shows_more(t9, l6, l10);
        lemma_shows_more(t10, l6, l11);
        lemma_shows_more(t11, l6, l12);
        lemma_shows_more(t12, l6, l13);
    }
    assert(shows(t13, l7)) by {
        lemma_shows_last(t6, l7);
        lemma_shows_more(t7, l7, l8);
        lemma_shows_more(t8, l7, l9);
        lemma_shows_more(t9, l7, l10);
        lemma_shows_more(t10, l7, l11);
        lemma_shows_more(t11, l7, l12);
        lemma_shows_more(t12, l7, l13);
    }
    assert(shows(t13, l8)) by {
        lemma_shows_last(t7, l8);
        lemma_shows_more(t8, l8, l9);
        lemma_shows_more(t9, l8, l10);
        lemma_shows_more(t10, l8, l11);
        lemma_shows_more(t11, l8, l12);
        lemma_shows_more(t12, l8, l13);
    }
    assert(shows(t13, l9)) by {
        lemma_shows_last(t8, l9);
        lemma_shows_more(t9, l9, l10);
        lemma_shows_more(t10, l9, l11);
        lemma_shows_more(t11, l9, l12);
        lemma_shows_more(t12, l9, l13);
    }
    assert(shows(t13, l10)) by {
        lemma_shows_last(t9, l10);
        lemma_shows_more(t10, l10, l11);
        lemma_shows_more(t11, l10, l12);
        lemma_shows_more(t12, l10, l13);
    }
    assert(shows(t13, l11)) by {
        lemma_shows_last(t10, l11);
        lemma_shows_more(t11, l11, l12);
        lemma_shows_more(t12, l11, l13);
    }
    assert(shows(t13, l12)) by {
        lemma_shows_last(t11, l12);
        lemma_shows_more(t12, l12, l13);
    }
    assert(shows(t13, l13)) by {
        lemma_shows_last(t12, l13);
    }
}

/// Where there is nothing but instructions and registers, the summary shows no more
/// than those.
pub proof fn missing_figures_are_not_shown(s: ShaderStats)
    requires
        s.declaration_count == 0,
        s.float_instruction_count == 0,
        s.int_instruction_count == 0,
        s.uint_instruction_count == 0,
        s.texture_normal_instructions == 0,
        s.texture_load_instructions == 0,
        s.static_flow_control_count == 0,
        s.dynamic_flow_control_count == 0,
        s.cut_instruction_count == 0,
        s.emit_instruction_count == 0,
        !s.is_sample_frequency,
    ensures
        stats_summary(s) == "// Statistics:\n"@ + how_many(s.instruction_count, " instruction(s)"@)
            + how_many(s.temp_register_count, " temp register(s)"@),
{
    lemma_count_line(s.instruction_count, " instruction(s)"@);
    lemma_count_line(s.temp_register_count, " temp register(s)"@);
    assert(stats_summary(s) =~= "// Statistics:\n"@ + how_many(
        s.instruction_count,
        " instruction(s)"@,
    ) + how_many(s.temp_register_count, " temp register(s)"@));
}

/// The keys of the fields that are no counters set those fields, and nothing else.
pub proof fn other_keys_set_their_fields(t: ShaderStats, s: ShaderStats)
    ensures
        key_sets(
            t,
            "size"@,
            dec_text(s.raw_size as nat),
            (ShaderStats { raw_size: s.raw_size, ..t }),
        ),
        stat_line(
            t,
            "sample_frequency="@ + if s.is_sample_frequency {
                "true"@
            } else {
                "false"@
            },
        ) == Some(ShaderStats { is_sample_frequency: s.is_sample_frequency, ..t }),
        spaced::stat_line(
            t,
            words(
                "sample_frequency "@ + dec_text(
                    if s.is_sample_frequency {
                        1
                    } else {
                        0
                    },
                ),
            ),
        ) == Some(ShaderStats { is_sample_frequency: s.is_sample_frequency, ..t }),
{
    reveal(key_sets);
    reveal_strlit("size=");
    reveal_strlit("size ");
    reveal_strlit("size");
    lemma_size(s, t);
    lemma_sample(s, t);
    lemma_spaced_size(s, t);
    lemma_spaced_sample(s, t);
    let d = dec_text(s.raw_size as nat);
    assert("size="@ + d =~= "size"@ + seq!['='] + d);
    assert("size "@ + d =~= "size"@ + (seq![' '] + d));
}

/// The reserved words stand behind their key in the order of their places.
pub proof fn reserved_words_keep_their_order(t: ShaderStats, a: u32, b: u32, c: u32, d: u32)
    ensures
        stat_line(
            t,
            "reserved="@ + (dec_text(a as nat) + seq![','] + dec_text(b as nat) + seq![',']
                + dec_text(c as nat) + seq![','] + dec_text(d as nat)),
        ) == Some(ShaderStats { reserved: [a, b, c, d], ..t }),
        spaced::stat_line(
            t,
            words(
                "reserved "@ + (dec_text(a as nat) + seq![' '] + dec_text(b as nat) + seq![' ']
                    + dec_text(c as nat) + seq![' '] + dec_text(d as nat)),
            ),
        ) == Some(ShaderStats { reserved: [a, b, c, d], ..t }),
{
    let s = ShaderStats { reserved: [a, b, c, d], ..t };
    lemma_reserved(s, t);
    lemma_spaced_reserved(s, t);
    let (w, x, y, z) = (
        dec_text(a as nat),
        dec_text(b as nat),
        dec_text(c as nat),
        dec_text(d as nat),
    );
    assert(w.push(',') + (x.push(',') + (y.push(',') + z)) =~= w + seq![','] + x + seq![','] + y
        + seq![','] + z);
    assert(w.push(' ') + (x.push(' ') + (y.push(' ') + z)) =~= w + seq![' '] + x + seq![' '] + y
        + seq![' '] + z);
}

} // verus!
