//! What follows the mnemonic of a declaration reads back.

use vstd::prelude::*;

use crate::floats::Spellings;
use crate::grammar::shex::reading::{
    is_count, read_count, read_enum, read_gs_input, read_gs_topology, read_kind,
    read_leading_operand, read_required_tag, read_spaced_dec, read_tag, read_tag_dec, read_tag_enum,
    read_tag_hex, read_three, read_trailing_dec, read_u32_list, read_words,
};
use crate::grammar::shex::text::{
    declaration_text, gs_primitive_text, hex8_text, operand_text, spaced_dec, spaced_operands_text,
    stride_text, uav_flags_text, word_list_text,
};
use crate::grammar::tables::{
    NameTable, cb_access, sampler_modes, tess_domains, tess_output_prims, tess_partitionings,
};
use crate::numerals::{
    dec_text, hex_text, is_lower_digit, lemma_number_lacks, lemma_number_text, number_reads_back,
};
use crate::roundtrip::modifiers::lemma_word_lacks;
use crate::roundtrip::names::{is_word, is_word_char};
use crate::roundtrip::operands::{
    follows_operand, lemma_hex8, lemma_operand, lemma_operand_start, lemma_skip_space,
    valid_operand,
};
use crate::roundtrip::tables::{
    is_entry, lemma_cb_access, lemma_entry_value, lemma_sampler_modes, lemma_tess_domains,
    lemma_tess_output_prims, lemma_tess_partitionings, wordy,
};
use crate::shex::ir::{
    GsOutputTopology, GsPrimitive, ImmediateType, KindModel, Opcode, OperandModel,
};
use crate::text::{lacks, lemma_span_until_concat, skip_spaces, starts_with};

verus! {

// ---------------------------------------------------------------------------
// Numbers and tags
// ---------------------------------------------------------------------------

/// A number behind nothing reads back.
pub proof fn lemma_trailing_dec(n: u32)
    ensures
        read_trailing_dec(dec_text(n as nat)) == Ok::<nat, Seq<char>>(n as nat),
        read_trailing_dec(spaced_dec(n)) == Ok::<nat, Seq<char>>(n as nat),
{
    reveal_strlit(" ");
    let d = dec_text(n as nat);
    lemma_number_text(n as nat, 10);
    number_reads_back(n as nat, 10, 0xffff_ffff);
    assert(is_lower_digit(d[0], 10));
    lemma_skip_space(d);
    assert(spaced_dec(n) =~= seq![' '] + d);
}

/// A number up to a space or the end reads back.
pub proof fn lemma_spaced_dec(n: u32, rest: Seq<char>)
    requires
        rest.len() == 0 || rest[0] == ' ',
    ensures
        read_spaced_dec(dec_text(n as nat) + rest) == Ok::<(nat, Seq<char>), Seq<char>>(
            (n as nat, rest),
        ),
        read_spaced_dec(spaced_dec(n) + rest) == Ok::<(nat, Seq<char>), Seq<char>>(
            (n as nat, rest),
        ),
{
    reveal_strlit(" ");
    let d = dec_text(n as nat);
    lemma_number_text(n as nat, 10);
    number_reads_back(n as nat, 10, 0xffff_ffff);
    assert(is_lower_digit(d[0], 10));
    let s = d + rest;
    assert(s[0] == d[0]);
    lemma_skip_space(s);
    assert(spaced_dec(n) + rest =~= seq![' '] + s);
    lemma_number_lacks(n as nat, 10, ' ');
    lemma_span_until_concat(d, rest, ' ', ' ', ' ');
}

/// Three numbers read back.
proof fn lemma_three(a: u32, b: u32, c: u32)
    ensures
        read_three(dec_text(a as nat) + (spaced_dec(b) + spaced_dec(c))) == Ok::<
            (u32, u32, u32),
            Seq<char>,
        >((a, b, c)),
{
    reveal_strlit(" ");
    let s2 = spaced_dec(c);
    let s1 = spaced_dec(b) + s2;
    assert(s1[0] == ' ');
    lemma_spaced_dec(a, s1);
    assert(s2[0] == ' ');
    lemma_spaced_dec(b, s2);
    let e = Seq::<char>::empty();
    assert(s2 + e =~= s2);
    lemma_spaced_dec(c, e);
}

/// The value of a tag in brackets reads back.
pub proof fn lemma_tag(tag: Seq<char>, v: Seq<char>, rest: Seq<char>)
    requires
        tag.len() > 0,
        tag[0] != ' ',
        lacks(v, ')'),
    ensures
        read_tag(tag + (seq!['('] + (v + (seq![')'] + rest))), tag) == Ok::<
            Option<(Seq<char>, Seq<char>)>,
            Seq<char>,
        >(Some((v, rest))),
        read_required_tag(seq![' '] + (tag + (seq!['('] + (v + (seq![')'] + rest)))), tag) == Ok::<
            (Seq<char>, Seq<char>),
            Seq<char>,
        >((v, rest)),
{
    let close = seq![')'] + rest;
    let s = tag + (seq!['('] + (v + close));
    let n = tag.len() as int;
    assert(s[n] == '(');
    if starts_with(s, tag.push('=')) {
        assert(s.take(n + 1)[n] == '=');
    }
    assert(s.take(n + 1) =~= tag.push('('));
    assert(s.skip(n + 1) =~= v + close);
    lemma_span_until_concat(v, close, ')', ')', ')');
    assert((v + close)[v.len() as int] == ')');
    assert((v + close).skip(v.len() as int + 1) =~= rest);
    assert(s[0] == tag[0]);
    lemma_skip_space(s);
}

/// The text of a tag in brackets, behind a space.
pub proof fn lemma_tag_text(lit: Seq<char>, tag: Seq<char>, v: Seq<char>, rest: Seq<char>)
    requires
        lit == seq![' '] + tag.push('('),
    ensures
        lit + v + seq![')'] + rest == seq![' '] + (tag + (seq!['('] + (v + (seq![')'] + rest)))),
{
    assert(lit + v + seq![')'] + rest =~= seq![' '] + (tag + (seq!['('] + (v + (seq![')']
        + rest)))));
}

/// An operand that comes first, or behind a space, reads back.
pub proof fn lemma_leading_operand(op: OperandModel, ft: Spellings, rest: Seq<char>)
    requires
        valid_operand(op),
        follows_operand(rest),
    ensures
        ({
            let s = operand_text(op, ImmediateType::Uint, ft) + rest;
            &&& read_leading_operand(s, ft) == Ok::<(OperandModel, Seq<char>), Seq<char>>(
                (op, rest),
            )
            &&& read_leading_operand(seq![' '] + s, ft) == Ok::<
                (OperandModel, Seq<char>),
                Seq<char>,
            >((op, rest))
            &&& skip_spaces(s) == s
            &&& skip_spaces(seq![' '] + s) == s
            &&& s.len() > 0
        }),
{
    let t = operand_text(op, ImmediateType::Uint, ft);
    let s = t + rest;
    lemma_operand_start(op, ImmediateType::Uint, ft);
    assert(s[0] == t[0]);
    lemma_skip_space(s);
    lemma_operand(op, ImmediateType::Uint, ft, rest);
}

/// One operand behind a space.
pub proof fn lemma_one_operand(op: OperandModel, ft: Spellings)
    ensures
        spaced_operands_text(seq![op], 0, ft) == seq![' '] + operand_text(
            op,
            ImmediateType::Uint,
            ft,
        ),
{
    reveal_strlit(" ");
    reveal_with_fuel(spaced_operands_text, 2);
    assert(spaced_operands_text(seq![op], 0, ft) =~= seq![' '] + operand_text(
        op,
        ImmediateType::Uint,
        ft,
    ));
}

// ---------------------------------------------------------------------------
// Declarations of one operand
// ---------------------------------------------------------------------------

/// Whether the kind is that of a declaration of one operand and what follows it,
/// and can be written.
pub open spec fn valid_operand_decl(op: Opcode, k: KindModel) -> bool {
    match k {
        KindModel::DclUavRaw { flags, operands } => op == Opcode::DclUnorderedAccessViewRaw
            && one_operand(operands),
        KindModel::DclResourceRaw { operands } => op == Opcode::DclResourceRaw && one_operand(
            operands,
        ),
        KindModel::DclResourceStructured { stride, operands } => op
            == Opcode::DclResourceStructured && one_operand(operands),
        KindModel::DclIndexRange { operands, count } => op == Opcode::DclIndexRange && one_operand(
            operands,
        ),
        KindModel::DclSampler { mode, operands } => op == Opcode::DclSampler && one_operand(
            operands,
        ) && is_entry(sampler_modes(), mode),
        KindModel::DclConstantBuffer { access, operands } => op == Opcode::DclConstantBuffer
            && one_operand(operands) && is_entry(cb_access(), access),
        _ => false,
    }
}

/// Whether there is one operand and it can be written.
pub open spec fn one_operand(ops: Seq<OperandModel>) -> bool {
    ops.len() == 1 && valid_operand(ops[0])
}

/// A name of a table of words is a word and is read as one of its names.
pub proof fn lemma_entry(t: NameTable, s: Seq<char>)
    requires
        wordy(t),
        is_entry(t, s),
    ensures
        is_word(s),
        read_enum(s, t) == Ok::<Seq<char>, Seq<char>>(s),
{
    let i = choose|i: int| 0 <= i < t.len() && t[i].0 == s;
    assert(is_word(t[i].0));
    lemma_entry_value(t, s);
}

pub proof fn lemma_flags_tag(flags: u32, rest: Seq<char>)
    ensures
        uav_flags_text(flags).len() > 0,
        uav_flags_text(flags)[0] == ' ',
        read_tag_hex(uav_flags_text(flags) + rest, "flags"@) == Ok::<(nat, Seq<char>), Seq<char>>(
            (flags as nat, rest),
        ),
{
    reveal_strlit(" flags(0x");
    reveal_strlit("flags");
    reveal_strlit("0x");
    let d = hex_text(flags as nat);
    lemma_number_text(flags as nat, 16);
    number_reads_back(flags as nat, 16, 0xffff_ffff);
    lemma_number_lacks(flags as nat, 16, ')');
    let v = "0x"@ + d;
    assert(lacks(v, ')'));
    assert(v.take(2) =~= "0x"@);
    assert(v.skip(2) =~= d);
    lemma_tag("flags"@, v, rest);
    lemma_flags_shape(d, rest);
}

/// The tag of flags, in its parts.
proof fn lemma_flags_shape(d: Seq<char>, rest: Seq<char>)
    ensures
        " flags(0x"@ + d + seq![')'] + rest == seq![' '] + ("flags"@ + (seq!['('] + ("0x"@ + d + (
        seq![')'] + rest)))),
{
    reveal_strlit(" flags(0x");
    reveal_strlit("flags");
    reveal_strlit("0x");
    assert(" flags(0x"@ =~= seq![' '] + "flags"@ + seq!['('] + "0x"@);
    assert(" flags(0x"@ + d + seq![')'] + rest =~= seq![' '] + ("flags"@ + (seq!['('] + ("0x"@ + d
        + (seq![')'] + rest)))));
}

pub proof fn lemma_stride_tag(stride: u32, rest: Seq<char>)
    ensures
        stride_text(stride).len() > 0,
        stride_text(stride)[0] == ' ',
        read_tag_dec(stride_text(stride) + rest, "stride"@) == Ok::<(nat, Seq<char>), Seq<char>>(
            (stride as nat, rest),
        ),
{
    reveal_strlit(" stride(");
    reveal_strlit("stride");
    let d = dec_text(stride as nat);
    lemma_number_text(stride as nat, 10);
    number_reads_back(stride as nat, 10, 0xffff_ffff);
    lemma_number_lacks(stride as nat, 10, ')');
    lemma_tag("stride"@, d, rest);
    assert(stride_text(stride) + rest =~= seq![' '] + ("stride"@ + (seq!['('] + (d + (seq![')']
        + rest)))));
}

proof fn lemma_enum_tag(lit: Seq<char>, tag: Seq<char>, t: NameTable, name: Seq<char>)
    requires
        lit == seq![' '] + tag.push('('),
        tag.len() > 0,
        tag[0] != ' ',
        wordy(t),
        is_entry(t, name),
    ensures
        read_tag_enum(lit + name + seq![')'], tag, t) == Ok::<(Seq<char>, Seq<char>), Seq<char>>(
            (name, Seq::empty()),
        ),
        (lit + name + seq![')'])[0] == ' ',
{
    lemma_entry(t, name);
    lemma_word_lacks(name, ')');
    let e = Seq::<char>::empty();
    lemma_tag(tag, name, e);
    lemma_tag_text(lit, tag, name, e);
    assert(lit + name + seq![')'] + e =~= lit + name + seq![')']);
}

/// What is written of a declaration of one operand, and the operand read from it.
pub proof fn lemma_operand_head(ops: Seq<OperandModel>, ft: Spellings, tail: Seq<char>)
    requires
        one_operand(ops),
        follows_operand(tail),
    ensures
        ({
            let s = spaced_operands_text(ops, 0, ft) + tail;
            &&& s.len() > 0
            &&& s[0] == ' '
            &&& read_leading_operand(s.skip(1), ft) == Ok::<(OperandModel, Seq<char>), Seq<char>>(
                (ops[0], tail),
            )
            &&& seq![ops[0]] == ops
        }),
{
    let o = ops[0];
    assert(ops =~= seq![o]);
    lemma_one_operand(o, ft);
    lemma_leading_operand(o, ft, tail);
    let t = operand_text(o, ImmediateType::Uint, ft);
    let s = spaced_operands_text(ops, 0, ft) + tail;
    assert(s =~= seq![' '] + (t + tail));
    assert(s.skip(1) =~= t + tail);
}

/// What a declaration writes reads back, behind its first space.
pub open spec fn decl_reads(op: Opcode, k: KindModel, ft: Spellings) -> bool {
    &&& declaration_text(k, ft).len() > 0
    &&& declaration_text(k, ft)[0] == ' '
    &&& read_kind(op, declaration_text(k, ft).skip(1), ft) == Ok::<KindModel, Seq<char>>(k)
}

proof fn lemma_uav_raw(k: KindModel, ft: Spellings)
    requires
        k is DclUavRaw,
        valid_operand_decl(Opcode::DclUnorderedAccessViewRaw, k),
    ensures
        decl_reads(Opcode::DclUnorderedAccessViewRaw, k, ft),
{
    match k {
        KindModel::DclUavRaw { flags, operands } => {
            let tail = uav_flags_text(flags);
            let e = Seq::<char>::empty();
            lemma_flags_tag(flags, e);
            assert(tail + e =~= tail);
            lemma_operand_head(operands, ft, tail);
        },
        _ => {},
    }
}

proof fn lemma_resource_raw(k: KindModel, ft: Spellings)
    requires
        k is DclResourceRaw,
        valid_operand_decl(Opcode::DclResourceRaw, k),
    ensures
        decl_reads(Opcode::DclResourceRaw, k, ft),
{
    match k {
        KindModel::DclResourceRaw { operands } => {
            let e = Seq::<char>::empty();
            lemma_operand_head(operands, ft, e);
            let s = spaced_operands_text(operands, 0, ft);
            assert(s + e =~= s);
        },
        _ => {},
    }
}

proof fn lemma_resource_structured(k: KindModel, ft: Spellings)
    requires
        k is DclResourceStructured,
        valid_operand_decl(Opcode::DclResourceStructured, k),
    ensures
        decl_reads(Opcode::DclResourceStructured, k, ft),
{
    match k {
        KindModel::DclResourceStructured { stride, operands } => {
            let tail = stride_text(stride);
            let e = Seq::<char>::empty();
            lemma_stride_tag(stride, e);
            assert(tail + e =~= tail);
            lemma_operand_head(operands, ft, tail);
        },
        _ => {},
    }
}

proof fn lemma_index_range(k: KindModel, ft: Spellings)
    requires
        k is DclIndexRange,
        valid_operand_decl(Opcode::DclIndexRange, k),
    ensures
        decl_reads(Opcode::DclIndexRange, k, ft),
{
    match k {
        KindModel::DclIndexRange { operands, count } => {
            let tail = spaced_dec(count);
            reveal_strlit(" ");
            lemma_trailing_dec(count);
            lemma_operand_head(operands, ft, tail);
        },
        _ => {},
    }
}

proof fn lemma_sampler(k: KindModel, ft: Spellings)
    requires
        k is DclSampler,
        valid_operand_decl(Opcode::DclSampler, k),
    ensures
        decl_reads(Opcode::DclSampler, k, ft),
{
    match k {
        KindModel::DclSampler { mode, operands } => {
            reveal_strlit(" mode(");
            reveal_strlit("mode");
            let tail = " mode("@ + mode + seq![')'];
            lemma_sampler_modes();
            assert(" mode("@ =~= seq![' '] + "mode"@.push('('));
            lemma_enum_tag(" mode("@, "mode"@, sampler_modes(), mode);
            lemma_operand_head(operands, ft, tail);
        },
        _ => {},
    }
}

proof fn lemma_constant_buffer(k: KindModel, ft: Spellings)
    requires
        k is DclConstantBuffer,
        valid_operand_decl(Opcode::DclConstantBuffer, k),
    ensures
        decl_reads(Opcode::DclConstantBuffer, k, ft),
{
    match k {
        KindModel::DclConstantBuffer { access, operands } => {
            reveal_strlit(" access(");
            reveal_strlit("access");
            let tail = " access("@ + access + seq![')'];
            lemma_cb_access();
            assert(" access("@ =~= seq![' '] + "access"@.push('('));
            lemma_enum_tag(" access("@, "access"@, cb_access(), access);
            lemma_operand_head(operands, ft, tail);
        },
        _ => {},
    }
}

/// A declaration of one operand and what follows it reads back.
pub proof fn lemma_operand_decl(op: Opcode, k: KindModel, ft: Spellings)
    requires
        valid_operand_decl(op, k),
    ensures
        decl_reads(op, k, ft),
{
    match k {
        KindModel::DclUavRaw { .. } => {
            lemma_uav_raw(k, ft);
        },
        KindModel::DclResourceRaw { .. } => {
            lemma_resource_raw(k, ft);
        },
        KindModel::DclResourceStructured { .. } => {
            lemma_resource_structured(k, ft);
        },
        KindModel::DclIndexRange { .. } => {
            lemma_index_range(k, ft);
        },
        KindModel::DclSampler { .. } => {
            lemma_sampler(k, ft);
        },
        KindModel::DclConstantBuffer { .. } => {
            lemma_constant_buffer(k, ft);
        },
        _ => {},
    }
}

// ---------------------------------------------------------------------------
// Declarations of numbers and names
// ---------------------------------------------------------------------------

/// Whether the kind is that of a declaration of one number.
pub open spec fn valid_count_decl(op: Opcode, k: KindModel) -> bool {
    is_count(op) && exists|n: u32| k == #[trigger] read_count(op, n)
}

/// A declaration of one number reads back.
pub proof fn lemma_count_decl(op: Opcode, k: KindModel, ft: Spellings)
    requires
        valid_count_decl(op, k),
    ensures
        decl_reads(op, k, ft),
{
    let n = choose|n: u32| k == read_count(op, n);
    reveal_strlit(" ");
    lemma_trailing_dec(n);
    let s = declaration_text(k, ft);
    assert(s == spaced_dec(n));
    assert(s.skip(1) =~= dec_text(n as nat));
}

/// Whether the kind is that of a declaration of a name, and can be written.
pub open spec fn valid_name_decl(op: Opcode, k: KindModel) -> bool {
    match k {
        KindModel::DclTessDomain { domain } => op == Opcode::DclTessDomain && is_entry(
            tess_domains(),
            domain,
        ),
        KindModel::DclTessPartitioning { partitioning } => op == Opcode::DclTessPartitioning
            && is_entry(tess_partitionings(), partitioning),
        KindModel::DclTessOutputPrimitive { primitive } => op == Opcode::DclTessOutputPrimitive
            && is_entry(tess_output_prims(), primitive),
        KindModel::DclGsInputPrimitive { primitive } => op == Opcode::DclGsInputPrimitive,
        KindModel::DclGsOutputTopology { topology } => op == Opcode::DclGsOutputPrimitiveTopology,
        _ => false,
    }
}

pub proof fn lemma_name_start(t: Seq<char>)
    requires
        t.len() > 0,
        is_word_char(t[0]),
    ensures
        skip_spaces(t) == t,
        (" "@ + t)[0] == ' ',
        (" "@ + t).skip(1) == t,
{
    reveal_strlit(" ");
    lemma_skip_space(t);
    assert((" "@ + t).skip(1) =~= t);
}

proof fn lemma_gs_primitive(p: GsPrimitive)
    ensures
        gs_primitive_text(p).len() > 0,
        is_word_char(gs_primitive_text(p)[0]),
        read_gs_input(gs_primitive_text(p)) == Ok::<KindModel, Seq<char>>(
            KindModel::DclGsInputPrimitive { primitive: p },
        ),
{
    reveal_strlit("undefined");
    reveal_strlit("point");
    reveal_strlit("line");
    reveal_strlit("triangle");
    reveal_strlit("lineAdj");
    reveal_strlit("triangleAdj");
    reveal_strlit("patchlist(");
    let t = gs_primitive_text(p);
    match p {
        GsPrimitive::ControlPointPatch(n) => {
            let d = dec_text(n as nat);
            lemma_number_text(n as nat, 10);
            number_reads_back(n as nat, 10, 0xff);
            assert(t.take(10) =~= "patchlist("@);
            let r = t.skip(10);
            assert(r =~= d.push(')'));
            assert(r.drop_last() =~= d);
            assert(t[0] == 'p');
            lemma_name_start(t);
        },
        _ => {
            lemma_name_start(t);
            if starts_with(t, "patchlist("@) {
                assert(t.take(10)[1] == 'a');
                assert(t[1] == 'a');
            }
            if p is Line {
                assert(t[0] == 'l');
            }
            if p is LineAdj {
                assert(t[4] == 'A');
            }
            assert(GsPrimitive::named(t) == Some(p));
        },
    }
}

proof fn lemma_gs_topology(p: GsOutputTopology)
    ensures
        p.name_text().len() > 0,
        is_word_char(p.name_text()[0]),
        read_gs_topology(p.name_text()) == Ok::<KindModel, Seq<char>>(
            KindModel::DclGsOutputTopology { topology: p },
        ),
{
    reveal_strlit("undefined");
    reveal_strlit("pointlist");
    reveal_strlit("linelist");
    reveal_strlit("linestrip");
    reveal_strlit("trianglelist");
    reveal_strlit("trianglestrip");
    reveal_strlit("linelistAdj");
    reveal_strlit("linestripAdj");
    reveal_strlit("trianglelistAdj");
    reveal_strlit("trianglestripAdj");
    let t = p.name_text();
    assert("undefined"@[0] == 'u' && "pointlist"@[0] == 'p' && "linestrip"@[0] == 'l');
    assert("trianglelist"@[0] == 't' && "linestripAdj"@[0] == 'l');
    assert("undefined"@.len() == 9 && "linelist"@.len() == 8 && "linelistAdj"@.len() == 11);
    assert("trianglestrip"@.len() == 13 && "trianglelistAdj"@.len() == 15);
    assert("trianglestripAdj"@.len() == 16 && "trianglelist"@.len() == 12);
    lemma_name_start(t);
    assert(GsOutputTopology::named(t) == Some(p));
}

/// A declaration of a name reads back.
pub proof fn lemma_name_decl(op: Opcode, k: KindModel, ft: Spellings)
    requires
        valid_name_decl(op, k),
    ensures
        decl_reads(op, k, ft),
{
    match k {
        KindModel::DclTessDomain { domain } => {
            lemma_tess_domains();
            lemma_entry(tess_domains(), domain);
            assert(is_word_char(domain[0]));
            lemma_name_start(domain);
        },
        KindModel::DclTessPartitioning { partitioning } => {
            lemma_tess_partitionings();
            lemma_entry(tess_partitionings(), partitioning);
            assert(is_word_char(partitioning[0]));
            lemma_name_start(partitioning);
        },
        KindModel::DclTessOutputPrimitive { primitive } => {
            lemma_tess_output_prims();
            lemma_entry(tess_output_prims(), primitive);
            assert(is_word_char(primitive[0]));
            lemma_name_start(primitive);
        },
        KindModel::DclGsInputPrimitive { primitive } => {
            lemma_gs_primitive(primitive);
            lemma_name_start(gs_primitive_text(primitive));
        },
        KindModel::DclGsOutputTopology { topology } => {
            lemma_gs_topology(topology);
            lemma_name_start(topology.name_text());
        },
        _ => {},
    }
}

/// Whether the kind is that of a declaration of a few numbers.
pub open spec fn valid_numbers_decl(op: Opcode, k: KindModel) -> bool {
    match k {
        KindModel::DclIndexableTemp { .. } => op == Opcode::DclIndexableTemp,
        KindModel::DclThreadGroup { .. } => op == Opcode::DclThreadGroup,
        KindModel::DclHsMaxTessFactor { .. } => op == Opcode::DclHsMaxTessFactor,
        KindModel::DclFunctionTable { .. } => op == Opcode::DclFunctionTable,
        KindModel::DclInterface { .. } => op == Opcode::DclInterface,
        _ => false,
    }
}

/// A list of numbers, up to the closing brace, reads back.
proof fn lemma_words(ws: Seq<u32>, k: int)
    requires
        0 <= k < ws.len(),
    ensures
        ({
            let t = dec_text(ws[k] as nat) + word_list_text(ws, k + 1) + seq!['}'];
            read_words(t) == Ok::<Seq<u32>, Seq<char>>(ws.skip(k))
        }),
    decreases ws.len() - k,
{
    let d = dec_text(ws[k] as nat);
    lemma_number_text(ws[k] as nat, 10);
    number_reads_back(ws[k] as nat, 10, 0xffff_ffff);
    lemma_number_lacks(ws[k] as nat, 10, ',');
    lemma_number_lacks(ws[k] as nat, 10, '}');
    reveal_strlit(", ");
    let t = d + word_list_text(ws, k + 1) + seq!['}'];
    if k + 1 < ws.len() {
        let more = dec_text(ws[k + 1] as nat) + word_list_text(ws, k + 2) + seq!['}'];
        let tail = ", "@ + more;
        assert(word_list_text(ws, k + 1) =~= ", "@ + (dec_text(ws[k + 1] as nat) + word_list_text(
            ws,
            k + 2,
        )));
        assert(t =~= d + tail);
        assert(tail[0] == ',');
        lemma_span_until_concat(d, tail, ',', '}', '}');
        assert(tail.take(2) =~= ", "@);
        assert(tail.skip(2) =~= more);
        lemma_words(ws, k + 1);
        assert(ws.skip(k) =~= seq![ws[k]] + ws.skip(k + 1));
    } else {
        let tail = seq!['}'];
        assert(word_list_text(ws, k + 1) =~= Seq::empty());
        assert(t =~= d + tail);
        lemma_span_until_concat(d, tail, ',', '}', '}');
        if starts_with(tail, ", "@) {
            assert(tail.len() == 1);
        }
        assert(ws.skip(k) =~= seq![ws[k]]);
    }
}

/// A list of numbers in braces, behind a space, reads back.
proof fn lemma_word_list(ws: Seq<u32>)
    ensures
        ({
            let s = " {"@ + word_list_text(ws, 0) + seq!['}'];
            &&& s[0] == ' '
            &&& read_u32_list(skip_spaces(s)) == Ok::<Seq<u32>, Seq<char>>(ws)
        }),
{
    reveal_strlit(" {");
    let s = " {"@ + word_list_text(ws, 0) + seq!['}'];
    let body = word_list_text(ws, 0) + seq!['}'];
    let t = seq!['{'] + body;
    assert(s =~= seq![' '] + t);
    lemma_skip_space(t);
    assert(t.skip(1) =~= body);
    if ws.len() == 0 {
        assert(body =~= seq!['}']);
        assert(ws =~= Seq::empty());
    } else {
        lemma_words(ws, 0);
        let d = dec_text(ws[0] as nat);
        lemma_number_text(ws[0] as nat, 10);
        assert(is_lower_digit(d[0], 10));
        assert(body =~= d + word_list_text(ws, 1) + seq!['}']);
        assert(body[0] == d[0]);
        assert(ws.skip(0) =~= ws);
    }
}

proof fn lemma_triple_decl(op: Opcode, k: KindModel, ft: Spellings)
    requires
        valid_numbers_decl(op, k),
        k is DclIndexableTemp || k is DclThreadGroup,
    ensures
        decl_reads(op, k, ft),
{
    reveal_strlit(" ");
    let s = declaration_text(k, ft);
    let (a, b, c) = match k {
        KindModel::DclIndexableTemp { reg, size, components } => (reg, size, components),
        KindModel::DclThreadGroup { x, y, z } => (x, y, z),
        _ => (0, 0, 0),
    };
    lemma_three(a, b, c);
    assert(s =~= seq![' '] + (dec_text(a as nat) + (spaced_dec(b) + spaced_dec(c))));
    assert(s.skip(1) =~= dec_text(a as nat) + (spaced_dec(b) + spaced_dec(c)));
}

proof fn lemma_tess_factor_decl(k: KindModel, ft: Spellings)
    requires
        k is DclHsMaxTessFactor,
    ensures
        decl_reads(Opcode::DclHsMaxTessFactor, k, ft),
{
    reveal_strlit(" ");
    let s = declaration_text(k, ft);
    match k {
        KindModel::DclHsMaxTessFactor { value } => {
            lemma_hex8(value);
            let t = hex8_text(value);
            lemma_skip_space(t);
            assert(s =~= seq![' '] + t);
            assert(s.skip(1) =~= t);
        },
        _ => {},
    }
}

proof fn lemma_function_table_decl(k: KindModel, ft: Spellings)
    requires
        k is DclFunctionTable,
    ensures
        decl_reads(Opcode::DclFunctionTable, k, ft),
{
    reveal_strlit(" ");
    let s = declaration_text(k, ft);
    match k {
        KindModel::DclFunctionTable { table_index, body_indices } => {
            let tail = " {"@ + word_list_text(body_indices, 0) + seq!['}'];
            lemma_word_list(body_indices);
            lemma_spaced_dec(table_index, tail);
            let d = dec_text(table_index as nat);
            assert(s =~= seq![' '] + (d + tail));
            assert(s.skip(1) =~= d + tail);
        },
        _ => {},
    }
}

proof fn lemma_interface_decl(k: KindModel, ft: Spellings)
    requires
        k is DclInterface,
    ensures
        decl_reads(Opcode::DclInterface, k, ft),
{
    reveal_strlit(" ");
    let s = declaration_text(k, ft);
    match k {
        KindModel::DclInterface { interface_index, num_call_sites, table_indices } => {
            let tail = " {"@ + word_list_text(table_indices, 0) + seq!['}'];
            lemma_word_list(table_indices);
            let mid = spaced_dec(num_call_sites) + tail;
            lemma_spaced_dec(num_call_sites, tail);
            assert(mid[0] == ' ');
            lemma_spaced_dec(interface_index, mid);
            let d = dec_text(interface_index as nat);
            assert(s =~= seq![' '] + (d + mid));
            assert(s.skip(1) =~= d + mid);
        },
        _ => {},
    }
}

/// A declaration of a few numbers reads back.
pub proof fn lemma_numbers_decl(op: Opcode, k: KindModel, ft: Spellings)
    requires
        valid_numbers_decl(op, k),
    ensures
        decl_reads(op, k, ft),
{
    match k {
        KindModel::DclHsMaxTessFactor { .. } => {
            lemma_tess_factor_decl(k, ft);
        },
        KindModel::DclFunctionTable { .. } => {
            lemma_function_table_decl(k, ft);
        },
        KindModel::DclInterface { .. } => {
            lemma_interface_decl(k, ft);
        },
        _ => {
            lemma_triple_decl(op, k, ft);
        },
    }
}

} // verus!
