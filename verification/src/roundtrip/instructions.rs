//! Instructions read back.

use vstd::prelude::*;

use crate::floats::Spellings;
use crate::grammar::shex::reading::{read_count, read_instruction, read_kind};
use crate::grammar::shex::text::{
    custom_data_text, data_tag_text, declaration_text, flags_text, gs_primitive_text, hex8_text,
    instruction_text, interp_text, mnemonic_text, modifiers_text, operand_list_text, operand_text,
    raw_text, return_types_text, row_text, rows_text, spaced_dec, spaced_operands_text,
    stride_text, sv_text, typed_text, uav_flags_text, word_list_text,
};
use crate::grammar::tables::{
    cb_access, dimensions, global_flags, interpolations, sampler_modes, tess_domains,
    tess_output_prims, tess_partitionings,
};
use crate::lines::{is_clean, split_once};
use crate::numerals::{dec_text, hex_text};
use crate::roundtrip::clean::{
    closed, inked, is_plain_char, lemma_closed_concat, lemma_hex8_inked, lemma_inked,
    lemma_inked_concat, lemma_mnemonic_inked, lemma_modifiers_inked, lemma_number_inked,
    lemma_operand_plain, lemma_plain_concat, lemma_types_inked, lemma_word_inked, plain,
};
use crate::roundtrip::data::{
    lemma_custom_data, lemma_generic_operands, valid_data, valid_operands,
};
use crate::roundtrip::declarations::{
    lemma_count_decl, lemma_entry, lemma_name_decl, lemma_numbers_decl, lemma_operand_decl,
    valid_count_decl, valid_name_decl, valid_numbers_decl, valid_operand_decl,
};
use crate::roundtrip::mnemonics::lemma_read_mnemonic;
use crate::roundtrip::modifiers::lemma_read_modifiers;
use crate::roundtrip::resources::{
    lemma_global_flags_decl, lemma_port_decl, lemma_typed_decl, valid_flags, valid_port_decl,
    valid_typed_decl,
};
use crate::roundtrip::tables::{
    is_entry, lemma_cb_access, lemma_dimensions, lemma_global_flags, lemma_interpolations,
    lemma_sampler_modes, lemma_system_value, lemma_tess_domains, lemma_tess_output_prims,
    lemma_tess_partitionings,
};
use crate::shex::decode::{is_input, is_output, is_phase, is_plain_decl, is_resource_decl};
use crate::shex::ir::{
    CustomDataType, GsOutputTopology, GsPrimitive, ImmediateType, InstructionModel, KindModel,
    Opcode, OperandModel, ReturnType, no_modifiers,
};
use crate::shex::opcodes::imm_type_of;
use crate::text::{is_white, lemma_span_until_concat};

verus! {

/// Whether instructions with that opcode are their operands.
pub open spec fn is_generic(op: Opcode) -> bool {
    &&& op is Unknown ==> op->Unknown_0 > 217
    &&& op != Opcode::CustomData
    &&& !is_input(op)
    &&& !is_output(op)
    &&& !is_resource_decl(op)
    &&& !is_plain_decl(op)
    &&& !is_phase(op)
}

/// Whether the kind is that of a declaration with that opcode, and can be
/// written.
pub open spec fn valid_decl(op: Opcode, k: KindModel) -> bool {
    ||| valid_operand_decl(op, k)
    ||| valid_count_decl(op, k)
    ||| valid_name_decl(op, k)
    ||| valid_numbers_decl(op, k)
    ||| valid_port_decl(op, k)
    ||| valid_typed_decl(op, k)
    ||| op == Opcode::DclGlobalFlags && k is DclGlobalFlags && valid_flags(k->DclGlobalFlags_flags)
}

/// Whether an instruction can be written.
pub open spec fn valid_instruction(i: InstructionModel) -> bool {
    match i.kind {
        KindModel::Generic { operands } => is_generic(i.opcode) && valid_operands(operands),
        KindModel::HsPhase => is_phase(i.opcode),
        KindModel::CustomData { .. } => i.opcode == Opcode::CustomData && i.mods == no_modifiers()
            && valid_data(i.kind),
        _ => i.mods == no_modifiers() && valid_decl(i.opcode, i.kind),
    }
}

/// The mnemonic and the modifiers of a line, and what follows them.
proof fn lemma_line_parts(i: InstructionModel, tail: Seq<char>, ft: Spellings)
    requires
        i.opcode is Unknown ==> i.opcode->Unknown_0 > 217,
        tail.len() == 0 || tail[0] == ' ',
        read_kind(i.opcode, if tail.len() == 0 {
            Seq::empty()
        } else {
            tail.skip(1)
        }, ft) == Ok::<KindModel, Seq<char>>(i.kind),
    ensures
        read_instruction(mnemonic_text(i.opcode) + modifiers_text(i.mods) + tail, ft) == Ok::<
            InstructionModel,
            Seq<char>,
        >(i),
{
    broadcast use lemma_inked_concat;

    reveal(read_instruction);
    let head = mnemonic_text(i.opcode) + modifiers_text(i.mods);
    let line = head + tail;
    lemma_mnemonic_inked(i.opcode);
    lemma_modifiers_inked(i.mods);
    assert(inked(head));
    lemma_read_modifiers(i.mods);
    lemma_read_mnemonic(i.opcode, modifiers_text(i.mods));
    lemma_span_until_concat(head, tail, ' ', ' ', ' ');
    if tail.len() == 0 {
        assert(line =~= head);
        assert(split_once(line, ' ') is None);
    } else {
        assert(line.take(head.len() as int) =~= head);
        assert(line.skip(head.len() as int + 1) =~= tail.skip(1));
        assert(split_once(line, ' ') == Some((head, tail.skip(1))));
    }
}

proof fn lemma_generic(i: InstructionModel, ft: Spellings)
    requires
        i.kind is Generic,
        valid_instruction(i),
    ensures
        read_instruction(instruction_text(i, ft), ft) == Ok::<InstructionModel, Seq<char>>(i),
{
    match i.kind {
        KindModel::Generic { operands } => {
            let ty = imm_type_of(i.opcode);
            let tail = operand_list_text(operands, 0, ty, ft);
            lemma_generic_operands(operands, ty, ft);
            lemma_line_parts(i, tail, ft);
        },
        _ => {},
    }
}

/// No modifiers are written as nothing.
proof fn lemma_no_modifiers()
    ensures
        modifiers_text(no_modifiers()) == Seq::<char>::empty(),
{
    assert(modifiers_text(no_modifiers()) =~= Seq::empty());
}

/// A line without modifiers.
proof fn lemma_bare_line(i: InstructionModel, tail: Seq<char>, ft: Spellings)
    requires
        !(i.opcode is Unknown),
        i.mods == no_modifiers(),
        tail.len() == 0 || tail[0] == ' ',
        read_kind(i.opcode, if tail.len() == 0 {
            Seq::empty()
        } else {
            tail.skip(1)
        }, ft) == Ok::<KindModel, Seq<char>>(i.kind),
    ensures
        read_instruction(i.opcode.mnemonic() + tail, ft) == Ok::<InstructionModel, Seq<char>>(i),
{
    lemma_no_modifiers();
    let m = i.opcode.mnemonic();
    assert(mnemonic_text(i.opcode) == m);
    assert(m + modifiers_text(i.mods) =~= m);
    lemma_line_parts(i, tail, ft);
}

proof fn lemma_declaration(i: InstructionModel, ft: Spellings)
    requires
        i.mods == no_modifiers(),
        valid_decl(i.opcode, i.kind),
    ensures
        read_instruction(i.opcode.mnemonic() + declaration_text(i.kind, ft), ft) == Ok::<
            InstructionModel,
            Seq<char>,
        >(i),
{
    let op = i.opcode;
    let k = i.kind;
    if valid_operand_decl(op, k) {
        lemma_operand_decl(op, k, ft);
    } else if valid_count_decl(op, k) {
        lemma_count_decl(op, k, ft);
    } else if valid_name_decl(op, k) {
        lemma_name_decl(op, k, ft);
    } else if valid_numbers_decl(op, k) {
        lemma_numbers_decl(op, k, ft);
    } else if valid_port_decl(op, k) {
        lemma_port_decl(op, k, ft);
    } else if valid_typed_decl(op, k) {
        lemma_typed_decl(op, k, ft);
    } else {
        lemma_global_flags_decl(k->DclGlobalFlags_flags, ft);
    }
    lemma_bare_line(i, declaration_text(k, ft), ft);
}

proof fn lemma_data(i: InstructionModel, ft: Spellings)
    requires
        i.kind is CustomData,
        valid_instruction(i),
    ensures
        read_instruction(instruction_text(i, ft), ft) == Ok::<InstructionModel, Seq<char>>(i),
{
    lemma_custom_data(i.kind);
    let tail = custom_data_text(
        i.kind->CustomData_subtype,
        i.kind->CustomData_values,
        i.kind->CustomData_raw,
    );
    lemma_bare_line(i, tail, ft);
}

/// An instruction reads back as it was written.
pub proof fn instruction_reads_back(i: InstructionModel, ft: Spellings)
    requires
        valid_instruction(i),
    ensures
        read_instruction(instruction_text(i, ft), ft) == Ok::<InstructionModel, Seq<char>>(i),
{
    match i.kind {
        KindModel::Generic { .. } => {
            lemma_generic(i, ft);
        },
        KindModel::HsPhase => {
            let e = Seq::<char>::empty();
            let head = mnemonic_text(i.opcode) + modifiers_text(i.mods);
            assert(head + e =~= head);
            lemma_line_parts(i, e, ft);
        },
        KindModel::CustomData { .. } => {
            lemma_data(i, ft);
        },
        _ => {
            lemma_declaration(i, ft);
        },
    }
}

// ---------------------------------------------------------------------------
// Clean lines
// ---------------------------------------------------------------------------

/// Whether a text is plain and does not end with a space.
pub open spec fn tidy(s: Seq<char>) -> bool {
    plain(s) && closed(s)
}

/// Joined texts are tidy where the last is and the one before is plain.
proof fn lemma_tidy(a: Seq<char>, b: Seq<char>)
    requires
        plain(a),
        tidy(b),
        b.len() > 0 || closed(a),
    ensures
        tidy(a + b),
{
    broadcast use lemma_plain_concat;

    lemma_closed_concat(a, b);
}

proof fn lemma_inked_tidy(s: Seq<char>)
    requires
        inked(s),
    ensures
        tidy(s),
{
    lemma_inked(s);
}

proof fn lemma_literals()
    ensures
        plain(" "@),
        plain(", "@),
        plain(" {"@),
        plain(" ("@),
        plain(" interp("@),
        plain(" sv("@),
        plain(" samples("@),
        plain(" mode("@),
        plain(" access("@),
        plain(" stride("@),
        plain(" flags(0x"@),
        plain(","@),
        inked("|"@),
        tidy(" }"@),
        " }"@.len() == 2,
        tidy(seq![')']),
        tidy(seq!['}']),
{
    reveal_strlit(" ");
    reveal_strlit(", ");
    reveal_strlit(" {");
    reveal_strlit(" (");
    reveal_strlit(" interp(");
    reveal_strlit(" sv(");
    reveal_strlit(" samples(");
    reveal_strlit(" mode(");
    reveal_strlit(" access(");
    reveal_strlit(" stride(");
    reveal_strlit(" flags(0x");
    reveal_strlit(",");
    reveal_strlit("|");
    reveal_strlit(" }");
}

proof fn lemma_spaced_dec_tidy(n: u32)
    ensures
        tidy(spaced_dec(n)),
        spaced_dec(n).len() > 0,
{
    lemma_literals();
    lemma_number_inked(n as nat);
    lemma_inked_tidy(dec_text(n as nat));
    lemma_tidy(" "@, dec_text(n as nat));
}

/// A tag in brackets is tidy.
proof fn lemma_tag_tidy(lit: Seq<char>, v: Seq<char>)
    requires
        plain(lit),
        plain(v),
    ensures
        tidy(lit + v + seq![')']),
        (lit + v + seq![')']).len() > 0,
{
    broadcast use lemma_plain_concat;

    lemma_literals();
    lemma_tidy(lit + v, seq![')']);
}

proof fn lemma_one_operand_tidy(ops: Seq<OperandModel>, ft: Spellings)
    requires
        ops.len() == 1,
    ensures
        tidy(spaced_operands_text(ops, 0, ft)),
        spaced_operands_text(ops, 0, ft).len() > 0,
{
    broadcast use lemma_plain_concat;

    lemma_literals();
    reveal_with_fuel(spaced_operands_text, 2);
    let t = operand_text(ops[0], ImmediateType::Uint, ft);
    lemma_operand_plain(ops[0], ImmediateType::Uint, ft);
    lemma_tidy(" "@, t);
    let e = Seq::<char>::empty();
    assert(" "@ + t + e =~= " "@ + t);
}

proof fn lemma_operand_decl_tidy(op: Opcode, k: KindModel, ft: Spellings)
    requires
        valid_operand_decl(op, k),
    ensures
        tidy(declaration_text(k, ft)),
{
    lemma_literals();
    match k {
        KindModel::DclUavRaw { flags, operands } => {
            lemma_one_operand_tidy(operands, ft);
            lemma_number_inked(flags as nat);
            lemma_inked(hex_text(flags as nat));
            lemma_tag_tidy(" flags(0x"@, hex_text(flags as nat));
            lemma_tidy(spaced_operands_text(operands, 0, ft), uav_flags_text(flags));
        },
        KindModel::DclResourceRaw { operands } => {
            lemma_one_operand_tidy(operands, ft);
        },
        KindModel::DclResourceStructured { stride, operands } => {
            lemma_one_operand_tidy(operands, ft);
            lemma_number_inked(stride as nat);
            lemma_inked(dec_text(stride as nat));
            lemma_tag_tidy(" stride("@, dec_text(stride as nat));
            lemma_tidy(spaced_operands_text(operands, 0, ft), stride_text(stride));
        },
        KindModel::DclIndexRange { operands, count } => {
            lemma_one_operand_tidy(operands, ft);
            lemma_spaced_dec_tidy(count);
            lemma_tidy(spaced_operands_text(operands, 0, ft), spaced_dec(count));
        },
        KindModel::DclSampler { mode, operands } => {
            lemma_one_operand_tidy(operands, ft);
            lemma_sampler_modes();
            lemma_entry(sampler_modes(), mode);
            lemma_word_inked(mode);
            lemma_inked(mode);
            lemma_tag_tidy(" mode("@, mode);
            lemma_tidy(spaced_operands_text(operands, 0, ft), " mode("@ + mode + seq![')']);
        },
        KindModel::DclConstantBuffer { access, operands } => {
            lemma_one_operand_tidy(operands, ft);
            lemma_cb_access();
            lemma_entry(cb_access(), access);
            lemma_word_inked(access);
            lemma_inked(access);
            lemma_tag_tidy(" access("@, access);
            lemma_tidy(spaced_operands_text(operands, 0, ft), " access("@ + access + seq![')']);
        },
        _ => {},
    }
}

proof fn lemma_name_decl_tidy(op: Opcode, k: KindModel, ft: Spellings)
    requires
        valid_name_decl(op, k),
    ensures
        tidy(declaration_text(k, ft)),
{
    lemma_literals();
    match k {
        KindModel::DclTessDomain { domain } => {
            lemma_tess_domains();
            lemma_entry(tess_domains(), domain);
            lemma_word_inked(domain);
            lemma_inked_tidy(domain);
            lemma_tidy(" "@, domain);
        },
        KindModel::DclTessPartitioning { partitioning } => {
            lemma_tess_partitionings();
            lemma_entry(tess_partitionings(), partitioning);
            lemma_word_inked(partitioning);
            lemma_inked_tidy(partitioning);
            lemma_tidy(" "@, partitioning);
        },
        KindModel::DclTessOutputPrimitive { primitive } => {
            lemma_tess_output_prims();
            lemma_entry(tess_output_prims(), primitive);
            lemma_word_inked(primitive);
            lemma_inked_tidy(primitive);
            lemma_tidy(" "@, primitive);
        },
        KindModel::DclGsInputPrimitive { primitive } => {
            lemma_primitive_tidy(primitive);
            lemma_tidy(" "@, gs_primitive_text(primitive));
        },
        KindModel::DclGsOutputTopology { topology } => {
            lemma_topology_tidy(topology);
            lemma_tidy(" "@, topology.name_text());
        },
        _ => {},
    }
}

proof fn lemma_primitive_tidy(p: GsPrimitive)
    ensures
        tidy(gs_primitive_text(p)),
        gs_primitive_text(p).len() > 0,
{
    reveal_strlit("undefined");
    reveal_strlit("point");
    reveal_strlit("line");
    reveal_strlit("triangle");
    reveal_strlit("lineAdj");
    reveal_strlit("triangleAdj");
    reveal_strlit("patchlist(");
    match p {
        GsPrimitive::ControlPointPatch(n) => {
            lemma_number_inked(n as nat);
            lemma_inked(dec_text(n as nat));
            lemma_tag_tidy("patchlist("@, dec_text(n as nat));
        },
        _ => {
            assert(inked(p.name_text()));
            lemma_inked_tidy(p.name_text());
        },
    }
}

proof fn lemma_topology_tidy(p: GsOutputTopology)
    ensures
        tidy(p.name_text()),
        p.name_text().len() > 0,
{
    reveal_strlit("undefined");
    reveal_strlit("pointlist");
    reveal_strlit("linelist");
    reveal_strlit("linestrip");
    reveal_strlit("trianglelist");
    reveal_strlit("trianglestrip");
    reveal_strlit("linelistAdj");
    reveal_strlit("linestripAdj");
    reveal_strlit("trianglelistAdj");
    reveal_strlit("trianglestripAdj");
    assert(inked(p.name_text()));
    lemma_inked_tidy(p.name_text());
}

proof fn lemma_word_list_plain(ws: Seq<u32>, k: int)
    ensures
        plain(word_list_text(ws, k)),
    decreases ws.len() - k,
{
    broadcast use lemma_plain_concat;

    if 0 <= k < ws.len() {
        lemma_literals();
        lemma_number_inked(ws[k] as nat);
        lemma_inked(dec_text(ws[k] as nat));
        lemma_word_list_plain(ws, k + 1);
    }
}

proof fn lemma_numbers_decl_tidy(op: Opcode, k: KindModel, ft: Spellings)
    requires
        valid_numbers_decl(op, k),
    ensures
        tidy(declaration_text(k, ft)),
{
    broadcast use lemma_plain_concat;

    lemma_literals();
    match k {
        KindModel::DclIndexableTemp { reg, size, components } => {
            lemma_spaced_dec_tidy(reg);
            lemma_spaced_dec_tidy(size);
            lemma_spaced_dec_tidy(components);
            lemma_tidy(spaced_dec(size), spaced_dec(components));
            lemma_tidy(spaced_dec(reg), spaced_dec(size) + spaced_dec(components));
        },
        KindModel::DclThreadGroup { x, y, z } => {
            lemma_spaced_dec_tidy(x);
            lemma_spaced_dec_tidy(y);
            lemma_spaced_dec_tidy(z);
            lemma_tidy(spaced_dec(y), spaced_dec(z));
            lemma_tidy(spaced_dec(x), spaced_dec(y) + spaced_dec(z));
        },
        KindModel::DclHsMaxTessFactor { value } => {
            lemma_hex8_inked(value);
            lemma_inked_tidy(hex8_text(value));
            lemma_tidy(" "@, hex8_text(value));
        },
        KindModel::DclFunctionTable { table_index, body_indices } => {
            lemma_spaced_dec_tidy(table_index);
            lemma_word_list_plain(body_indices, 0);
            lemma_tidy(
                spaced_dec(table_index) + " {"@ + word_list_text(body_indices, 0),
                seq!['}'],
            );
        },
        KindModel::DclInterface { interface_index, num_call_sites, table_indices } => {
            lemma_spaced_dec_tidy(interface_index);
            lemma_spaced_dec_tidy(num_call_sites);
            lemma_word_list_plain(table_indices, 0);
            lemma_tidy(
                spaced_dec(interface_index) + spaced_dec(num_call_sites) + " {"@ + word_list_text(
                    table_indices,
                    0,
                ),
                seq!['}'],
            );
        },
        _ => {},
    }
}

proof fn lemma_port_decl_tidy(op: Opcode, k: KindModel, ft: Spellings)
    requires
        valid_port_decl(op, k),
    ensures
        tidy(declaration_text(k, ft)),
{
    broadcast use lemma_plain_concat;

    lemma_literals();
    let (sv, ops) = match k {
        KindModel::DclInput { interpolation, system_value, operands } => (system_value, operands),
        KindModel::DclOutput { system_value, operands } => (system_value, operands),
        _ => (None, Seq::empty()),
    };
    lemma_one_operand_tidy(ops, ft);
    let o = spaced_operands_text(ops, 0, ft);
    match sv {
        Some(n) => {
            lemma_system_value(n);
            lemma_word_inked(n);
            lemma_inked(n);
            lemma_tag_tidy(" sv("@, n);
        },
        None => {},
    }
    match k {
        KindModel::DclInput { interpolation, system_value, operands } => {
            match interpolation {
                Some(n) => {
                    lemma_interpolations();
                    lemma_entry(interpolations(), n);
                    lemma_word_inked(n);
                    lemma_inked(n);
                    lemma_tag_tidy(" interp("@, n);
                },
                None => {},
            }
            lemma_tidy(interp_text(interpolation), o);
            lemma_tidy(interp_text(interpolation) + o, sv_text(sv));
        },
        _ => {
            lemma_tidy(o, sv_text(sv));
        },
    }
}

proof fn lemma_typed_text_plain(
    dimension: Seq<char>,
    rt: [ReturnType; 4],
)
    requires
        is_entry(dimensions(), dimension),
    ensures
        plain(typed_text(dimension, rt)),
{
    broadcast use lemma_plain_concat;

    lemma_literals();
    lemma_dimensions();
    lemma_entry(dimensions(), dimension);
    lemma_word_inked(dimension);
    lemma_inked(dimension);
    lemma_types_inked(rt[0], rt[1], rt[2], rt[3]);
    lemma_inked(return_types_text(rt[0], rt[1], rt[2], rt[3]));
}

proof fn lemma_typed_decl_tidy(op: Opcode, k: KindModel, ft: Spellings)
    requires
        valid_typed_decl(op, k),
    ensures
        tidy(declaration_text(k, ft)),
{
    broadcast use lemma_plain_concat;

    lemma_literals();
    match k {
        KindModel::DclResource { dimension, sample_count, return_type, operands } => {
            lemma_typed_text_plain(dimension, return_type);
            lemma_one_operand_tidy(operands, ft);
            lemma_number_inked(sample_count as nat);
            lemma_inked(dec_text(sample_count as nat));
            lemma_tag_tidy(" samples("@, dec_text(sample_count as nat));
            lemma_tidy(
                typed_text(dimension, return_type) + spaced_operands_text(operands, 0, ft),
                " samples("@ + dec_text(sample_count as nat) + seq![')'],
            );
        },
        KindModel::DclUavTyped { dimension, flags, return_type, operands } => {
            lemma_typed_text_plain(dimension, return_type);
            lemma_one_operand_tidy(operands, ft);
            lemma_number_inked(flags as nat);
            lemma_inked(hex_text(flags as nat));
            lemma_tag_tidy(" flags(0x"@, hex_text(flags as nat));
            lemma_tidy(
                typed_text(dimension, return_type) + spaced_operands_text(operands, 0, ft),
                uav_flags_text(flags),
            );
        },
        KindModel::DclUavStructured { flags, stride, operands } => {
            lemma_one_operand_tidy(operands, ft);
            lemma_number_inked(flags as nat);
            lemma_inked(hex_text(flags as nat));
            lemma_tag_tidy(" flags(0x"@, hex_text(flags as nat));
            lemma_number_inked(stride as nat);
            lemma_inked(dec_text(stride as nat));
            lemma_tag_tidy(" stride("@, dec_text(stride as nat));
            lemma_tidy(
                spaced_operands_text(operands, 0, ft) + stride_text(stride),
                uav_flags_text(flags),
            );
        },
        _ => {},
    }
}

proof fn lemma_flags_tidy(flags: Seq<Seq<char>>, k: int)
    requires
        valid_flags(flags),
    ensures
        tidy(flags_text(flags, k)),
    decreases flags.len() - k,
{
    broadcast use lemma_plain_concat;

    if 0 <= k < flags.len() {
        lemma_literals();
        lemma_inked("|"@);
        lemma_global_flags();
        assert(is_entry(global_flags(), flags[k]));
        lemma_entry(global_flags(), flags[k]);
        lemma_word_inked(flags[k]);
        lemma_inked_tidy(flags[k]);
        lemma_flags_tidy(flags, k + 1);
        let sep = if k == 0 {
            " "@
        } else {
            "|"@
        };
        lemma_tidy(sep, flags[k]);
        lemma_tidy(sep + flags[k], flags_text(flags, k + 1));
    }
}

proof fn lemma_decl_tidy(op: Opcode, k: KindModel, ft: Spellings)
    requires
        valid_decl(op, k),
    ensures
        tidy(declaration_text(k, ft)),
{
    if valid_operand_decl(op, k) {
        lemma_operand_decl_tidy(op, k, ft);
    } else if valid_count_decl(op, k) {
        let n = choose|n: u32| k == read_count(op, n);
        lemma_spaced_dec_tidy(n);
    } else if valid_name_decl(op, k) {
        lemma_name_decl_tidy(op, k, ft);
    } else if valid_numbers_decl(op, k) {
        lemma_numbers_decl_tidy(op, k, ft);
    } else if valid_port_decl(op, k) {
        lemma_port_decl_tidy(op, k, ft);
    } else if valid_typed_decl(op, k) {
        lemma_typed_decl_tidy(op, k, ft);
    } else {
        lemma_flags_tidy(k->DclGlobalFlags_flags, 0);
    }
}

proof fn lemma_rows_plain(rows: Seq<[u32; 4]>, k: int)
    ensures
        plain(rows_text(rows, k)),
    decreases rows.len() - k,
{
    broadcast use lemma_plain_concat;

    if 0 <= k < rows.len() {
        lemma_literals();
        let row = rows[k];
        lemma_hex8_inked(row[0]);
        lemma_hex8_inked(row[1]);
        lemma_hex8_inked(row[2]);
        lemma_hex8_inked(row[3]);
        lemma_inked(hex8_text(row[0]));
        lemma_inked(hex8_text(row[1]));
        lemma_inked(hex8_text(row[2]));
        lemma_inked(hex8_text(row[3]));
        assert(plain(row_text(row)));
        lemma_rows_plain(rows, k + 1);
    }
}

proof fn lemma_raw_plain(raw: Seq<u32>, k: int)
    ensures
        plain(raw_text(raw, k)),
    decreases raw.len() - k,
{
    broadcast use lemma_plain_concat;

    if 0 <= k < raw.len() {
        lemma_literals();
        lemma_hex8_inked(raw[k]);
        lemma_inked(hex8_text(raw[k]));
        lemma_raw_plain(raw, k + 1);
    }
}

proof fn lemma_data_tidy(t: CustomDataType, values: Seq<[u32; 4]>, raw: Seq<u32>)
    ensures
        tidy(custom_data_text(t, values, raw)),
{
    broadcast use lemma_plain_concat;

    lemma_literals();
    reveal_strlit("icb");
    reveal_strlit("comment");
    reveal_strlit("debuginfo");
    reveal_strlit("opaque");
    reveal_strlit("other(");
    match t {
        CustomDataType::Other(v) => {
            lemma_number_inked(v as nat);
            lemma_inked(dec_text(v as nat));
            lemma_tag_tidy("other("@, dec_text(v as nat));
        },
        _ => {},
    }
    assert(plain(data_tag_text(t)));
    lemma_rows_plain(values, 0);
    lemma_raw_plain(raw, 0);
    let body = if t is ImmediateConstantBuffer {
        rows_text(values, 0)
    } else {
        raw_text(raw, 0)
    };
    lemma_tidy(" "@ + data_tag_text(t) + " {"@ + body, " }"@);
}

proof fn lemma_operand_list_tidy(ops: Seq<OperandModel>, k: int, ty: ImmediateType, ft: Spellings)
    ensures
        tidy(operand_list_text(ops, k, ty, ft)),
    decreases ops.len() - k,
{
    broadcast use lemma_plain_concat;

    if 0 <= k < ops.len() {
        lemma_literals();
        lemma_operand_plain(ops[k], ty, ft);
        lemma_operand_list_tidy(ops, k + 1, ty, ft);
        let sep = if k == 0 {
            " "@
        } else {
            ", "@
        };
        let t = operand_text(ops[k], ty, ft);
        lemma_tidy(sep, t);
        lemma_tidy(sep + t, operand_list_text(ops, k + 1, ty, ft));
    }
}

/// A tidy text behind a mnemonic makes a clean line.
proof fn lemma_clean(head: Seq<char>, tail: Seq<char>)
    requires
        inked(head),
        head.len() > 0,
        tidy(tail),
    ensures
        is_clean(head + tail, true),
{
    let s = head + tail;
    lemma_inked(head);
    lemma_tidy(head, tail);
    assert(s[0] == head[0]);
    assert(is_plain_char(s[s.len() - 1]));
    assert(!is_white(s[0]));
    assert(!is_white(s.last()));
    if s.contains('\n') {
        let i = choose|i: int| 0 <= i < s.len() && s[i] == '\n';
        assert(is_plain_char(s[i]));
    }
    assert forall|i: int| 0 <= i < s.len() - 1 implies !(#[trigger] s[i] == '/' && s[i + 1]
        == '/') by {
        assert(is_plain_char(s[i]));
    }
}

/// An instruction is written on a clean line.
pub proof fn lemma_instruction_clean(i: InstructionModel, ft: Spellings)
    requires
        valid_instruction(i),
    ensures
        is_clean(instruction_text(i, ft), true),
{
    broadcast use lemma_inked_concat;

    lemma_mnemonic_inked(i.opcode);
    lemma_modifiers_inked(i.mods);
    let head = mnemonic_text(i.opcode) + modifiers_text(i.mods);
    match i.kind {
        KindModel::Generic { operands } => {
            let ty = imm_type_of(i.opcode);
            lemma_operand_list_tidy(operands, 0, ty, ft);
            lemma_clean(head, operand_list_text(operands, 0, ty, ft));
        },
        KindModel::HsPhase => {
            let e = Seq::<char>::empty();
            assert(head + e =~= head);
            lemma_clean(head, e);
        },
        KindModel::CustomData { subtype, values, raw, raw_dword_count } => {
            lemma_data_tidy(subtype, values, raw);
            lemma_clean(i.opcode.mnemonic(), custom_data_text(subtype, values, raw));
        },
        _ => {
            lemma_decl_tidy(i.opcode, i.kind, ft);
            lemma_clean(i.opcode.mnemonic(), declaration_text(i.kind, ft));
        },
    }
}

} // verus!
