//! Declarations of flags, of inputs and outputs, and of typed resources read
//! back.

use vstd::prelude::*;

use crate::floats::Spellings;
use crate::grammar::shex::reading::{
    Ports, Typed, after_token, four_types, no_ports, quoting, read_declared_types, read_flag_names,
    read_kind, read_leading_operand, read_port, read_ports, read_tag, read_typed, token,
};
use crate::grammar::shex::text::{
    declaration_text, flags_text, operand_text, return_types_text, spaced_operands_text,
    stride_text, sv_text, typed_text, uav_flags_text,
};
use crate::grammar::tables::{dimensions, global_flags, interpolations, system_values};
use crate::lines::split;
use crate::numerals::{dec_text, lemma_number_lacks, number_reads_back};
use crate::roundtrip::declarations::{
    decl_reads, lemma_entry, lemma_flags_tag, lemma_leading_operand, lemma_one_operand,
    lemma_operand_head, lemma_stride_tag, lemma_tag, one_operand,
};
use crate::roundtrip::modifiers::{
    lemma_four_types, lemma_split_first, lemma_split_one, lemma_word_lacks,
};
use crate::roundtrip::names::is_word_char;
use crate::roundtrip::operands::{
    follows_operand, lemma_operand, lemma_operand_no_tag, lemma_operand_start, lemma_skip_space,
    valid_operand,
};
use crate::roundtrip::tables::{
    is_entry, lemma_dimensions, lemma_entry_value, lemma_global_flags, lemma_interpolations,
    lemma_system_value,
};
use crate::shex::ir::{ImmediateType, KindModel, Opcode, OperandModel, ReturnType};
use crate::text::{lacks, lemma_span_until_concat, starts_with};

verus! {

// ---------------------------------------------------------------------------
// Global flags
// ---------------------------------------------------------------------------

/// Whether all are names of global flags.
pub open spec fn valid_flags(flags: Seq<Seq<char>>) -> bool {
    forall|i: int| 0 <= i < flags.len() ==> is_entry(global_flags(), #[trigger] flags[i])
}

/// The flags from number `k` on, separated by bars.
pub open spec fn bar_list(flags: Seq<Seq<char>>, k: int) -> Seq<char>
    decreases flags.len() - k,
{
    if k < 0 || k >= flags.len() {
        Seq::empty()
    } else if k + 1 == flags.len() {
        flags[k]
    } else {
        flags[k] + (seq!['|'] + bar_list(flags, k + 1))
    }
}

proof fn lemma_flags_text(flags: Seq<Seq<char>>, k: int)
    requires
        0 <= k < flags.len(),
    ensures
        flags_text(flags, k) == (if k == 0 {
            " "@
        } else {
            "|"@
        }) + bar_list(flags, k),
    decreases flags.len() - k,
{
    reveal_strlit("|");
    assert("|"@ =~= seq!['|']);
    let sep = if k == 0 {
        " "@
    } else {
        "|"@
    };
    let next = flags_text(flags, k + 1);
    assert(flags_text(flags, k) == sep + flags[k] + next);
    if k + 1 < flags.len() {
        lemma_flags_text(flags, k + 1);
        assert(sep + flags[k] + next =~= sep + bar_list(flags, k));
    } else {
        assert(next =~= Seq::empty());
        assert(sep + flags[k] + next =~= sep + bar_list(flags, k));
    }
}

proof fn lemma_flag_split(flags: Seq<Seq<char>>, k: int)
    requires
        0 <= k < flags.len(),
        valid_flags(flags),
    ensures
        split(bar_list(flags, k), '|') == flags.skip(k),
        bar_list(flags, k).len() > 0,
        is_word_char(bar_list(flags, k)[0]),
    decreases flags.len() - k,
{
    lemma_global_flags();
    assert(is_entry(global_flags(), flags[k]));
    lemma_entry(global_flags(), flags[k]);
    lemma_word_lacks(flags[k], '|');
    assert(is_word_char(flags[k][0]));
    if k + 1 < flags.len() {
        lemma_flag_split(flags, k + 1);
        lemma_split_first(flags[k], '|', bar_list(flags, k + 1));
        assert(flags.skip(k) =~= seq![flags[k]] + flags.skip(k + 1));
        assert(bar_list(flags, k)[0] == flags[k][0]);
    } else {
        lemma_split_one(flags[k], '|');
        assert(flags.skip(k) =~= seq![flags[k]]);
    }
}

proof fn lemma_flag_names(flags: Seq<Seq<char>>, k: int)
    requires
        0 <= k <= flags.len(),
        valid_flags(flags),
    ensures
        read_flag_names(flags, k) == Ok::<Seq<Seq<char>>, Seq<char>>(flags.skip(k)),
    decreases flags.len() - k,
{
    if k == flags.len() {
        assert(flags.skip(k) =~= Seq::empty());
    } else {
        assert(is_entry(global_flags(), flags[k]));
        lemma_entry_value(global_flags(), flags[k]);
        lemma_flag_names(flags, k + 1);
        assert(flags.skip(k) =~= seq![flags[k]] + flags.skip(k + 1));
    }
}

/// Global flags read back; where there are none, nothing is written.
pub proof fn lemma_global_flags_decl(flags: Seq<Seq<char>>, ft: Spellings)
    requires
        valid_flags(flags),
    ensures
        ({
            let k = KindModel::DclGlobalFlags { flags };
            if flags.len() == 0 {
                &&& declaration_text(k, ft) == Seq::<char>::empty()
                &&& read_kind(Opcode::DclGlobalFlags, Seq::empty(), ft) == Ok::<
                    KindModel,
                    Seq<char>,
                >(k)
            } else {
                decl_reads(Opcode::DclGlobalFlags, k, ft)
            }
        }),
{
    if flags.len() == 0 {
        lemma_skip_space(Seq::empty());
        assert(flags =~= Seq::empty());
    } else {
        reveal_strlit(" ");
        lemma_flags_text(flags, 0);
        lemma_flag_split(flags, 0);
        lemma_flag_names(flags, 0);
        assert(flags.skip(0) =~= flags);
        let t = bar_list(flags, 0);
        assert((" "@ + t).skip(1) =~= t);
        lemma_skip_space(t);
    }
}

// ---------------------------------------------------------------------------
// Inputs and outputs
// ---------------------------------------------------------------------------

/// Whether a name, where there is one, is a name of the system values.
pub open spec fn valid_system_value(s: Option<Seq<char>>) -> bool {
    match s {
        Some(n) => is_entry(system_values(), n),
        None => true,
    }
}

/// Whether a name, where there is one, is a name of the interpolation modes.
pub open spec fn valid_interpolation(s: Option<Seq<char>>) -> bool {
    match s {
        Some(n) => is_entry(interpolations(), n),
        None => true,
    }
}

/// A tag is not another.
proof fn lemma_other_tag(s: Seq<char>, tag: Seq<char>)
    requires
        !starts_with(s, tag),
    ensures
        read_tag(s, tag) == Ok::<Option<(Seq<char>, Seq<char>)>, Seq<char>>(None),
{
    let n = tag.len() as int;
    if starts_with(s, tag.push('=')) {
        assert(s.take(n) =~= s.take(n + 1).take(n));
        assert(tag.push('=').take(n) =~= tag);
    }
    if starts_with(s, tag.push('(')) {
        assert(s.take(n) =~= s.take(n + 1).take(n));
        assert(tag.push('(').take(n) =~= tag);
    }
}

/// The system value at the end of an input or output reads back.
proof fn lemma_sv_part(sv: Option<Seq<char>>, input: bool, p: Ports, ft: Spellings)
    requires
        valid_system_value(sv),
        p.system_value is None,
    ensures
        read_ports(sv_text(sv), input, p, ft) == Ok::<Ports, Seq<char>>(
            Ports { system_value: sv, ..p },
        ),
        sv_text(sv).len() == 0 || sv_text(sv)[0] == ' ',
{
    let e = Seq::<char>::empty();
    lemma_skip_space(e);
    match sv {
        Some(n) => {
            reveal_strlit(" sv(");
            reveal_strlit("sv");
            reveal_strlit("interp");
            lemma_system_value(n);
            lemma_word_lacks(n, ')');
            let p2 = Ports { system_value: Some(n), ..p };
            let t = "sv"@ + (seq!['('] + (n + (seq![')'] + e)));
            assert(sv_text(sv) =~= seq![' '] + t);
            lemma_tag("sv"@, n, e);
            assert(t[0] == 's');
            lemma_skip_space(t);
            if starts_with(t, "interp"@) {
                assert(t.take(6)[0] == 'i');
            }
            lemma_other_tag(t, "interp"@);
            assert(read_port(t, input, p, ft) == Ok::<(Ports, Seq<char>), Seq<char>>((p2, e)));
            assert(read_ports(e, input, p2, ft) == Ok::<Ports, Seq<char>>(p2));
        },
        None => {
            assert(sv_text(sv) =~= e);
            assert(read_ports(e, input, p, ft) == Ok::<Ports, Seq<char>>(p));
        },
    }
}

/// The operand and the system value of an input or output read back, behind a
/// space or not.
proof fn lemma_operand_part(
    o: OperandModel,
    sv: Option<Seq<char>>,
    input: bool,
    p: Ports,
    ft: Spellings,
)
    requires
        valid_operand(o),
        valid_system_value(sv),
        p.system_value is None,
        p.operands.len() == 0,
    ensures
        ({
            let s = operand_text(o, ImmediateType::Uint, ft) + sv_text(sv);
            let r = Ports { system_value: sv, operands: seq![o], ..p };
            &&& read_ports(s, input, p, ft) == Ok::<Ports, Seq<char>>(r)
            &&& read_ports(seq![' '] + s, input, p, ft) == Ok::<Ports, Seq<char>>(r)
        }),
{
    let rest = sv_text(sv);
    let p2 = Ports { operands: p.operands.push(o), ..p };
    assert(p.operands.push(o) =~= seq![o]);
    lemma_sv_part(sv, input, p2, ft);
    lemma_leading_operand(o, ft, rest);
    lemma_operand(o, ImmediateType::Uint, ft, rest);
    lemma_operand_no_tag(o, ft, rest);
    lemma_operand_start(o, ImmediateType::Uint, ft);
    let s = operand_text(o, ImmediateType::Uint, ft) + rest;
    lemma_other_tag(s, "interp"@);
    lemma_other_tag(s, "sv"@);
    assert(read_port(s, input, p, ft) == Ok::<(Ports, Seq<char>), Seq<char>>((p2, rest)));
}

/// An interpolation mode, the operand and the system value read back.
proof fn lemma_interp_part(
    interp: Seq<char>,
    o: OperandModel,
    sv: Option<Seq<char>>,
    ft: Spellings,
)
    requires
        is_entry(interpolations(), interp),
        valid_operand(o),
        valid_system_value(sv),
    ensures
        ({
            let s = "interp"@ + (seq!['('] + (interp + (seq![')'] + (seq![' '] + (operand_text(
                o,
                ImmediateType::Uint,
                ft,
            ) + sv_text(sv))))));
            read_ports(s, true, no_ports(), ft) == Ok::<Ports, Seq<char>>(
                Ports { interpolation: Some(interp), system_value: sv, operands: seq![o] },
            )
        }),
{
    reveal_strlit("interp");
    lemma_interpolations();
    lemma_entry(interpolations(), interp);
    lemma_word_lacks(interp, ')');
    let rest = seq![' '] + (operand_text(o, ImmediateType::Uint, ft) + sv_text(sv));
    let s = "interp"@ + (seq!['('] + (interp + (seq![')'] + rest)));
    lemma_tag("interp"@, interp, rest);
    assert(s[0] == 'i');
    lemma_skip_space(s);
    let p1 = Ports { interpolation: Some(interp), ..no_ports() };
    assert(read_port(s, true, no_ports(), ft) == Ok::<(Ports, Seq<char>), Seq<char>>((p1, rest)));
    lemma_operand_part(o, sv, true, p1, ft);
}

/// Whether the opcode declares an input.
pub open spec fn is_input_decl(op: Opcode) -> bool {
    op == Opcode::DclInput || op == Opcode::DclInputSgv || op == Opcode::DclInputSiv || op
        == Opcode::DclInputPs || op == Opcode::DclInputPsSgv || op == Opcode::DclInputPsSiv
}

/// Whether the opcode declares an output.
pub open spec fn is_output_decl(op: Opcode) -> bool {
    op == Opcode::DclOutput || op == Opcode::DclOutputSgv || op == Opcode::DclOutputSiv
}

/// Whether the kind is that of an input or output, and can be written.
pub open spec fn valid_port_decl(op: Opcode, k: KindModel) -> bool {
    match k {
        KindModel::DclInput { interpolation, system_value, operands } => is_input_decl(op)
            && one_operand(operands) && valid_interpolation(interpolation) && valid_system_value(
            system_value,
        ),
        KindModel::DclOutput { system_value, operands } => is_output_decl(op) && one_operand(
            operands,
        ) && valid_system_value(system_value),
        _ => false,
    }
}

proof fn lemma_input_decl(op: Opcode, k: KindModel, ft: Spellings)
    requires
        k is DclInput,
        valid_port_decl(op, k),
    ensures
        decl_reads(op, k, ft),
{
    match k {
        KindModel::DclInput { interpolation, system_value, operands } => {
            let o = operands[0];
            assert(operands =~= seq![o]);
            lemma_one_operand(o, ft);
            let body = operand_text(o, ImmediateType::Uint, ft) + sv_text(system_value);
            let s = declaration_text(k, ft);
            match interpolation {
                Some(n) => {
                    reveal_strlit(" interp(");
                    reveal_strlit("interp");
                    let t = "interp"@ + (seq!['('] + (n + (seq![')'] + (seq![' '] + body))));
                    assert(s =~= seq![' '] + t);
                    assert(s.skip(1) =~= t);
                    lemma_interp_part(n, o, system_value, ft);
                },
                None => {
                    assert(s =~= seq![' '] + body);
                    assert(s.skip(1) =~= body);
                    lemma_operand_part(o, system_value, true, no_ports(), ft);
                },
            }
        },
        _ => {},
    }
}

proof fn lemma_output_decl(op: Opcode, k: KindModel, ft: Spellings)
    requires
        k is DclOutput,
        valid_port_decl(op, k),
    ensures
        decl_reads(op, k, ft),
{
    match k {
        KindModel::DclOutput { system_value, operands } => {
            let o = operands[0];
            assert(operands =~= seq![o]);
            lemma_one_operand(o, ft);
            let body = operand_text(o, ImmediateType::Uint, ft) + sv_text(system_value);
            let s = declaration_text(k, ft);
            assert(s =~= seq![' '] + body);
            assert(s.skip(1) =~= body);
            lemma_operand_part(o, system_value, false, no_ports(), ft);
        },
        _ => {},
    }
}

/// The declaration of an input or output reads back.
pub proof fn lemma_port_decl(op: Opcode, k: KindModel, ft: Spellings)
    requires
        valid_port_decl(op, k),
    ensures
        decl_reads(op, k, ft),
{
    match k {
        KindModel::DclInput { .. } => {
            lemma_input_decl(op, k, ft);
        },
        _ => {
            lemma_output_decl(op, k, ft);
        },
    }
}

// ---------------------------------------------------------------------------
// Typed resources
// ---------------------------------------------------------------------------

/// Whether the kind is that of a typed resource or a structured view, and can be
/// written.
pub open spec fn valid_typed_decl(op: Opcode, k: KindModel) -> bool {
    match k {
        KindModel::DclResource { dimension, sample_count, return_type, operands } => op
            == Opcode::DclResource && is_entry(dimensions(), dimension) && one_operand(operands),
        KindModel::DclUavTyped { dimension, flags, return_type, operands } => op
            == Opcode::DclUnorderedAccessViewTyped && is_entry(dimensions(), dimension)
            && one_operand(operands),
        KindModel::DclUavStructured { flags, stride, operands } => op
            == Opcode::DclUnorderedAccessViewStructured && one_operand(operands),
        _ => false,
    }
}

/// The dimension, the types and the operand of a typed resource read back.
proof fn lemma_typed(
    dimension: Seq<char>,
    rt: [ReturnType; 4],
    ops: Seq<OperandModel>,
    ft: Spellings,
    tail: Seq<char>,
)
    requires
        is_entry(dimensions(), dimension),
        one_operand(ops),
        follows_operand(tail),
    ensures
        ({
            let s = typed_text(dimension, rt) + spaced_operands_text(ops, 0, ft) + tail;
            &&& s.len() > 0
            &&& s[0] == ' '
            &&& read_typed(s.skip(1), ft) == Ok::<(Typed, Seq<char>), Seq<char>>(
                (
                    Typed {
                        dimension,
                        types: seq![rt[0], rt[1], rt[2], rt[3]],
                        operand: ops[0],
                    },
                    tail,
                ),
            )
        }),
{
    reveal_strlit(" ");
    reveal_strlit(" (");
    let o = ops[0];
    assert(ops =~= seq![o]);
    lemma_one_operand(o, ft);
    let inner = return_types_text(rt[0], rt[1], rt[2], rt[3]);
    lemma_declared_types(rt);
    let t = operand_text(o, ImmediateType::Uint, ft);
    let after = seq![' '] + (t + tail);
    lemma_leading_operand(o, ft, tail);
    lemma_read_typed(dimension, inner, seq![rt[0], rt[1], rt[2], rt[3]], o, after, tail, ft);
    lemma_typed_shape(dimension, inner, t, tail);
}

/// The text of a typed resource, cut into its parts.
proof fn lemma_typed_shape(a: Seq<char>, b: Seq<char>, t: Seq<char>, tail: Seq<char>)
    ensures
        ({
            let s = " "@ + a + " ("@ + b + seq![')'] + (seq![' '] + t) + tail;
            let x = a + (seq![' '] + (seq!['('] + (b + (seq![')'] + (seq![' '] + (t + tail))))));
            &&& s.len() > 0
            &&& s[0] == ' '
            &&& s.skip(1) == x
        }),
{
    reveal_strlit(" ");
    reveal_strlit(" (");
    let s = " "@ + a + " ("@ + b + seq![')'] + (seq![' '] + t) + tail;
    let x = a + (seq![' '] + (seq!['('] + (b + (seq![')'] + (seq![' '] + (t + tail))))));
    assert(s =~= seq![' '] + x);
    assert(s.skip(1) =~= x);
}

/// The types of a declaration read back.
proof fn lemma_declared_types(rt: [ReturnType; 4])
    ensures
        ({
            let inner = return_types_text(rt[0], rt[1], rt[2], rt[3]);
            &&& read_declared_types(inner) == Ok::<Seq<ReturnType>, Seq<char>>(
                seq![rt[0], rt[1], rt[2], rt[3]],
            )
            &&& lacks(inner, ')')
        }),
{
    let inner = return_types_text(rt[0], rt[1], rt[2], rt[3]);
    let missing = |k: int| quoting("rt= needs four types: "@, inner);
    lemma_four_types(rt[0], rt[1], rt[2], rt[3], missing);
    assert forall|i: int| 0 <= i < inner.len() implies #[trigger] inner[i] != ')' by {
        assert(is_word_char(inner[i]) || inner[i] == ',');
    }
}

/// A typed resource is read part by part.
proof fn lemma_read_typed(
    dimension: Seq<char>,
    inner: Seq<char>,
    types: Seq<ReturnType>,
    o: OperandModel,
    after: Seq<char>,
    tail: Seq<char>,
    ft: Spellings,
)
    requires
        is_entry(dimensions(), dimension),
        read_declared_types(inner) == Ok::<Seq<ReturnType>, Seq<char>>(types),
        lacks(inner, ')'),
        read_leading_operand(after, ft) == Ok::<(OperandModel, Seq<char>), Seq<char>>((o, tail)),
    ensures
        read_typed(
            dimension + (seq![' '] + (seq!['('] + (inner + (seq![')'] + after)))),
            ft,
        ) == Ok::<(Typed, Seq<char>), Seq<char>>((Typed { dimension, types, operand: o }, tail)),
{
    lemma_dimensions();
    lemma_entry(dimensions(), dimension);
    lemma_entry_value(dimensions(), dimension);
    lemma_word_lacks(dimension, ' ');
    assert(is_word_char(dimension[0]));
    let close = seq![')'] + after;
    let v = inner + close;
    let u = seq!['('] + v;
    let w = seq![' '] + u;
    let t = dimension + w;
    assert(t[0] == dimension[0]);
    lemma_skip_space(t);
    lemma_span_until_concat(dimension, w, ' ', ' ', ' ');
    assert(token(t) == dimension);
    assert(after_token(t) == w);
    lemma_skip_space(u);
    assert(u.skip(1) =~= v);
    lemma_span_until_concat(inner, close, ')', ')', ')');
    assert(v.skip(inner.len() as int + 1) =~= after);
}

proof fn lemma_resource_decl(k: KindModel, ft: Spellings)
    requires
        k is DclResource,
        valid_typed_decl(Opcode::DclResource, k),
    ensures
        decl_reads(Opcode::DclResource, k, ft),
{
    match k {
        KindModel::DclResource { dimension, sample_count, return_type, operands } => {
            reveal_strlit(" samples(");
            reveal_strlit("samples");
            let d = dec_text(sample_count as nat);
            let tail = " samples("@ + d + seq![')'];
            let e = Seq::<char>::empty();
            lemma_number_lacks(sample_count as nat, 10, ')');
            number_reads_back(sample_count as nat, 10, 0xffff_ffff);
            lemma_tag("samples"@, d, e);
            let t = "samples"@ + (seq!['('] + (d + (seq![')'] + e)));
            assert(tail =~= seq![' '] + t);
            assert(t[0] == 's');
            lemma_skip_space(t);
            lemma_typed(dimension, return_type, operands, ft, tail);
            assert(operands =~= seq![operands[0]]);
            let types = seq![return_type[0], return_type[1], return_type[2], return_type[3]];
            assert(four_types(types) =~= return_type);
            assert(declaration_text(k, ft) == typed_text(dimension, return_type)
                + spaced_operands_text(operands, 0, ft) + tail);
        },
        _ => {},
    }
}

proof fn lemma_uav_typed_decl(k: KindModel, ft: Spellings)
    requires
        k is DclUavTyped,
        valid_typed_decl(Opcode::DclUnorderedAccessViewTyped, k),
    ensures
        decl_reads(Opcode::DclUnorderedAccessViewTyped, k, ft),
{
    match k {
        KindModel::DclUavTyped { dimension, flags, return_type, operands } => {
            let tail = uav_flags_text(flags);
            let e = Seq::<char>::empty();
            lemma_flags_tag(flags, e);
            assert(tail + e =~= tail);
            lemma_typed(dimension, return_type, operands, ft, tail);
            assert(operands =~= seq![operands[0]]);
            let types = seq![return_type[0], return_type[1], return_type[2], return_type[3]];
            assert(four_types(types) =~= return_type);
        },
        _ => {},
    }
}

proof fn lemma_uav_structured_decl(k: KindModel, ft: Spellings)
    requires
        k is DclUavStructured,
        valid_typed_decl(Opcode::DclUnorderedAccessViewStructured, k),
    ensures
        decl_reads(Opcode::DclUnorderedAccessViewStructured, k, ft),
{
    match k {
        KindModel::DclUavStructured { flags, stride, operands } => {
            let f = uav_flags_text(flags);
            let e = Seq::<char>::empty();
            lemma_flags_tag(flags, e);
            assert(f + e =~= f);
            lemma_stride_tag(stride, f);
            let tail = stride_text(stride) + f;
            assert(tail[0] == ' ');
            lemma_operand_head(operands, ft, tail);
            assert(declaration_text(k, ft) =~= spaced_operands_text(operands, 0, ft) + tail);
        },
        _ => {},
    }
}

/// The declaration of a typed resource or a structured view reads back.
pub proof fn lemma_typed_decl(op: Opcode, k: KindModel, ft: Spellings)
    requires
        valid_typed_decl(op, k),
    ensures
        decl_reads(op, k, ft),
{
    match k {
        KindModel::DclResource { .. } => {
            lemma_resource_decl(k, ft);
        },
        KindModel::DclUavTyped { .. } => {
            lemma_uav_typed_decl(k, ft);
        },
        _ => {
            lemma_uav_structured_decl(k, ft);
        },
    }
}

} // verus!
