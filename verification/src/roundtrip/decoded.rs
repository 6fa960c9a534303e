//! Programs that were read from bytecode can be written, and read back.

use vstd::prelude::*;

use crate::floats::Spellings;
use crate::grammar::shex::reading::{is_count, parsed, read_count};
use crate::grammar::shex::text::{is_inline_immediate, program_text};
use crate::grammar::tables::{
    cb_access, dimensions, global_flags, interpolations, sampler_modes, shader_types, tess_domains,
    tess_output_prims, tess_partitionings,
};
use crate::roundtrip::data::valid_operands;
use crate::roundtrip::declarations::{valid_count_decl, valid_operand_decl};
use crate::roundtrip::documents::readable_code;
use crate::roundtrip::instructions::{is_generic, valid_decl, valid_instruction};
use crate::roundtrip::operands::{
    valid_components, valid_index, valid_indices, valid_operand, valid_register,
};
use crate::roundtrip::programs::{program_reads_back, valid_program};
use crate::roundtrip::resources::{
    valid_flags, valid_port_decl, valid_system_value, valid_typed_decl,
};
use crate::roundtrip::tables::{is_entry, lemma_table_entry};
use crate::shex::decode::{
    components_of, counted_words, extras_at, field, flags_of, immediate_count, index_at,
    index_kind_of, indices_at, instruction_len, instruction_of, instructions_from, is_input, is_output, is_phase,
    is_plain_decl, is_resource_decl, modifier_of, modifiers_of, operand_at, operands_from, plain_kind, port_kind,
    program_of, resource_kind, rows_from,
};
use crate::shex::ir::{
    IndexModel, InstructionModel, KindModel, Opcode, OperandModel, ProgramModel, RegisterType,
    kind_operands, no_modifiers,
};
use crate::shex::opcodes::opcode_values;

verus! {

// ---------------------------------------------------------------------------
// What text cannot hold
// ---------------------------------------------------------------------------

/// Whether no operand has both indices and immediate values, at any depth: text
/// has no place for the values then.
pub open spec fn simple_operand(op: OperandModel) -> bool
    decreases op, 1int,
{
    (op.indices.len() == 0 || op.immediate_values.len() == 0) && simple_indices(op.indices, 0)
}

/// Whether that holds of the operands in the indices from number `k` on.
pub open spec fn simple_indices(ix: Seq<IndexModel>, k: int) -> bool
    decreases ix, ix.len() - k,
{
    k < 0 || k >= ix.len() || (simple_index(ix[k]) && simple_indices(ix, k + 1))
}

/// Whether that holds of the operand in an index.
pub open spec fn simple_index(ix: IndexModel) -> bool
    decreases ix, 0int,
{
    match ix {
        IndexModel::Relative(op) => simple_operand(*op),
        IndexModel::RelativePlusImm(_, op) => simple_operand(*op),
        _ => true,
    }
}

/// The system value that a declaration names.
pub open spec fn named_system_value(k: KindModel) -> Option<Seq<char>> {
    match k {
        KindModel::DclInput { system_value, .. } => system_value,
        KindModel::DclOutput { system_value, .. } => system_value,
        _ => None,
    }
}

/// Whether text can hold all of an instruction: its operands are simple, and a
/// system value has a name.
pub open spec fn simple_instruction(i: InstructionModel) -> bool {
    &&& forall|k: int|
        0 <= k < kind_operands(i.kind).len() ==> simple_operand(#[trigger] kind_operands(i.kind)[k])
    &&& valid_system_value(named_system_value(i.kind))
}

// ---------------------------------------------------------------------------
// Operands
// ---------------------------------------------------------------------------

proof fn lemma_components(w: u32)
    ensures
        match components_of(w) {
            Some(c) => valid_components(c),
            None => true,
        },
{
    assert((w >> 4u32) & 0xF < 16) by (bit_vector);
    assert((w >> 4u32) & 3 < 4 && (w >> 6u32) & 3 < 4 && (w >> 8u32) & 3 < 4 && (w >> 10u32) & 3
        < 4) by (bit_vector);
}

pub proof fn lemma_register(v: u32)
    ensures
        valid_register(RegisterType::spec_from_u32(v)),
{
}

proof fn lemma_operand(b: Seq<u32>, p: int)
    ensures
        match operand_at(b, p) {
            Some((op, _)) => simple_operand(op) ==> valid_operand(op),
            None => true,
        },
    decreases b.len() - p, 5int,
{
    match operand_at(b, p) {
        Some((op, _)) => {
            let w = b[p];
            lemma_components(w);
            lemma_register(field(w, 12, 0xFF));
            let (_, q) = modifier_of(b, p + 1, field(w, 31, 1) == 1)->0;
            lemma_indices(b, q, w, 0);
            if simple_operand(op) {
                assert(valid_indices(op.indices, 0));
                if op.immediate_values.len() > 0 {
                    assert(immediate_count(op.reg_type, op.components) > 0);
                    assert(is_inline_immediate(op));
                }
            }
        },
        None => {},
    }
}

/// Indices that are read one behind the other.
proof fn lemma_valid_push(ix: IndexModel, rest: Seq<IndexModel>, k: int)
    requires
        0 <= k <= rest.len(),
    ensures
        valid_indices(seq![ix] + rest, k + 1) == valid_indices(rest, k),
        simple_indices(seq![ix] + rest, k + 1) == simple_indices(rest, k),
    decreases rest.len() - k,
{
    let all = seq![ix] + rest;
    if k < rest.len() {
        assert(all[k + 1] == rest[k]);
        lemma_valid_push(ix, rest, k + 1);
    }
}

proof fn lemma_indices(b: Seq<u32>, p: int, w: u32, k: int)
    ensures
        match indices_at(b, p, w, k) {
            Some((ix, _)) => simple_indices(ix, 0) ==> valid_indices(ix, 0),
            None => true,
        },
    decreases b.len() - p, 10 - k,
{
    if k < 0 || k >= field(w, 20, 3) || k >= 3 {
    } else {
        let kind = index_kind_of(w, k);
        lemma_index(b, p, kind);
        match index_at(b, p, kind) {
            Some((ix, q)) => {
                if p < q <= b.len() {
                    lemma_indices(b, q, w, k + 1);
                    match indices_at(b, q, w, k + 1) {
                        Some((rest, _)) => {
                            lemma_valid_push(ix, rest, 0);
                            assert((seq![ix] + rest)[0] == ix);
                        },
                        None => {},
                    }
                }
            },
            None => {},
        }
    }
}

proof fn lemma_index(b: Seq<u32>, p: int, kind: u32)
    ensures
        match index_at(b, p, kind) {
            Some((ix, _)) => simple_index(ix) ==> valid_index(ix),
            None => true,
        },
    decreases b.len() - p, 6int,
{
    if 0 <= p < b.len() {
        if kind == 2 {
            lemma_operand(b, p);
        } else if kind == 3 {
            lemma_operand(b, p + 1);
        }
    }
}

proof fn lemma_operands(b: Seq<u32>, p: int)
    ensures
        match operands_from(b, p) {
            Some(ops) => (forall|i: int| 0 <= i < ops.len() ==> simple_operand(#[trigger] ops[i]))
                ==> valid_operands(ops),
            None => true,
        },
    decreases b.len() - p,
{
    if p < b.len() {
        lemma_operand(b, p);
        match operand_at(b, p) {
            Some((op, q)) => {
                if p < q <= b.len() {
                    lemma_operands(b, q);
                    match operands_from(b, q) {
                        Some(rest) => {
                            let all = seq![op] + rest;
                            if forall|i: int|
                                0 <= i < all.len() ==> simple_operand(#[trigger] all[i]) {
                                assert(simple_operand(all[0]));
                                assert forall|i: int| 0 <= i < rest.len() implies simple_operand(
                                    #[trigger] rest[i],
                                ) by {
                                    assert(all[i + 1] == rest[i]);
                                }
                                assert forall|i: int| 0 <= i < all.len() implies valid_operand(
                                    #[trigger] all[i],
                                ) by {
                                    if i > 0 {
                                        assert(all[i] == rest[i - 1]);
                                    }
                                }
                            }
                        },
                        None => {},
                    }
                }
            },
            None => {},
        }
    }
}

// ---------------------------------------------------------------------------
// Instructions
// ---------------------------------------------------------------------------

proof fn lemma_port(op: Opcode, w: u32, b: Seq<u32>)
    requires
        is_input(op) || is_output(op),
    ensures
        match port_kind(op, w, b) {
            Some(k) => simple_instruction(
                InstructionModel { opcode: op, mods: no_modifiers(), kind: k },
            ) ==> valid_port_decl(op, k),
            None => true,
        },
{
    lemma_operand(b, 1);
    lemma_table_entry(interpolations(), field(w, 11, 0xF));
    match port_kind(op, w, b) {
        Some(k) => {
            let ops = kind_operands(k);
            let i = InstructionModel { opcode: op, mods: no_modifiers(), kind: k };
            if simple_instruction(i) {
                assert(simple_operand(ops[0]));
            }
        },
        None => {},
    }
}

proof fn lemma_resource(op: Opcode, w: u32, b: Seq<u32>)
    requires
        is_resource_decl(op),
    ensures
        match resource_kind(op, w, b) {
            Some(k) => simple_instruction(
                InstructionModel { opcode: op, mods: no_modifiers(), kind: k },
            ) ==> valid_operand_decl(op, k) || valid_typed_decl(op, k),
            None => true,
        },
{
    lemma_operand(b, 1);
    lemma_table_entry(dimensions(), field(w, 11, 0x1F));
    lemma_table_entry(sampler_modes(), field(w, 11, 0xF));
    lemma_table_entry(cb_access(), field(w, 11, 1));
    match resource_kind(op, w, b) {
        Some(k) => {
            let ops = kind_operands(k);
            let i = InstructionModel { opcode: op, mods: no_modifiers(), kind: k };
            if simple_instruction(i) {
                assert(simple_operand(ops[0]));
            }
        },
        None => {},
    }
}

proof fn lemma_flags(w: u32, k: int)
    ensures
        valid_flags(flags_of(w, k)),
    decreases 8 - k,
{
    if 0 <= k < 8 {
        lemma_flags(w, k + 1);
        let t = global_flags();
        let rest = flags_of(w, k + 1);
        let all = flags_of(w, k);
        assert(is_entry(t, t[k].0));
        assert forall|i: int| 0 <= i < all.len() implies is_entry(t, #[trigger] all[i]) by {
            if field(w, (11 + k) as u32, 1) == 1 {
                if i > 0 {
                    assert(all[i] == rest[i - 1]);
                }
            } else {
                assert(all[i] == rest[i]);
            }
        }
    }
}

proof fn lemma_plain(op: Opcode, w: u32, b: Seq<u32>)
    requires
        is_plain_decl(op),
    ensures
        match plain_kind(op, w, b) {
            Some(k) => valid_decl(op, k),
            None => true,
        },
{
    match plain_kind(op, w, b) {
        Some(k) => {
            lemma_flags(w, 0);
            lemma_table_entry(tess_domains(), field(w, 11, 3));
            lemma_table_entry(tess_partitionings(), field(w, 11, 7));
            lemma_table_entry(tess_output_prims(), field(w, 11, 7));
            if is_count(op) {
                let n = match k {
                    KindModel::DclOutputControlPointCount { count } => count,
                    KindModel::DclInputControlPointCount { count } => count,
                    _ => b[1],
                };
                assert(k == read_count(op, n));
                assert(valid_count_decl(op, k));
            }
        },
        None => {},
    }
}

/// The rows that words give.
pub proof fn lemma_rows(b: Seq<u32>, p: int)
    requires
        0 <= p <= b.len(),
        (b.len() - p) % 4 == 0,
    ensures
        4 * rows_from(b, p).len() == b.len() - p,
    decreases b.len() - p,
{
    if p + 4 <= b.len() {
        lemma_rows(b, p + 4);
    }
}

proof fn lemma_instruction(b: Seq<u32>)
    ensures
        match instruction_of(b) {
            Some(i) => simple_instruction(i) ==> valid_instruction(i),
            None => true,
        },
{
    if b.len() > 0 {
        let w = b[0];
        let v = field(w, 0, 0x7FF);
        let op = Opcode::spec_from_u32(v);
        opcode_values(v);
        match instruction_of(b) {
            Some(i) => {
                if simple_instruction(i) {
                    lemma_instruction_kind(b, i);
                }
            },
            None => {},
        }
    }
}

proof fn lemma_instruction_kind(b: Seq<u32>, i: InstructionModel)
    requires
        instruction_of(b) == Some(i),
        simple_instruction(i),
    ensures
        valid_instruction(i),
{
    let w = b[0];
    let v = field(w, 0, 0x7FF);
    let op = Opcode::spec_from_u32(v);
    opcode_values(v);
    if op == Opcode::CustomData {
        if (b.len() - 2) % 4 == 0 && b.len() >= 2 {
            lemma_rows(b, 2);
        }
    } else if is_input(op) || is_output(op) {
        lemma_port(op, w, b);
    } else if is_resource_decl(op) {
        lemma_resource(op, w, b);
    } else if is_plain_decl(op) {
        lemma_plain(op, w, b);
    } else {
        let (_, p) = extras_at(b, 1, field(w, 31, 1) == 1, modifiers_of(op, w))->0;
        lemma_operands(b, p);
        if !is_phase(op) {
            let ops = kind_operands(i.kind);
            assert forall|k: int| 0 <= k < ops.len() implies simple_operand(#[trigger] ops[k]) by {}
            assert(is_generic(op));
        }
    }
}

proof fn lemma_instructions(ws: Seq<u32>, p: int)
    ensures
        match instructions_from(ws, p) {
            Some(is) => (forall|k: int|
                0 <= k < is.len() ==> simple_instruction(#[trigger] is[k])) ==> (forall|k: int|
                0 <= k < is.len() ==> valid_instruction(#[trigger] is[k])),
            None => true,
        },
    decreases ws.len() - p,
{
    if p < ws.len() {
        let n = instruction_len(ws, p);
        if 0 < n && p + n <= ws.len() {
            let b = ws.subrange(p, p + n);
            lemma_instruction(b);
            lemma_instructions(ws, p + n);
            match (instruction_of(b), instructions_from(ws, p + n)) {
                (Some(i), Some(rest)) => {
                    let all = seq![i] + rest;
                    if forall|k: int| 0 <= k < all.len() ==> simple_instruction(#[trigger] all[k]) {
                        assert(simple_instruction(all[0]));
                        assert forall|k: int| 0 <= k < rest.len() implies simple_instruction(
                            #[trigger] rest[k],
                        ) by {
                            assert(all[k + 1] == rest[k]);
                        }
                        assert forall|k: int| 0 <= k < all.len() implies valid_instruction(
                            #[trigger] all[k],
                        ) by {
                            if k > 0 {
                                assert(all[k] == rest[k - 1]);
                            }
                        }
                    }
                },
                _ => {},
            }
        }
    }
}

/// A program read from bytecode is written to a text that reads back as that
/// very program, whatever its instructions, operands and immediate values. Left
/// out are operands with both indices and immediate values, and system values
/// without a name, which text cannot hold.
pub proof fn decoded_program_reads_back(d: Seq<u8>, fourcc: Seq<u8>, ft: Spellings)
    requires
        program_of(d, fourcc) is Some,
        readable_code(fourcc),
        forall|k: int|
            0 <= k < program_of(d, fourcc)->0.instructions.len() ==> simple_instruction(
                #[trigger] program_of(d, fourcc)->0.instructions[k],
            ),
    ensures
        parsed(program_text(program_of(d, fourcc)->0, ft), ft) == Ok::<ProgramModel, Seq<char>>(
            program_of(d, fourcc)->0,
        ),
{
    let p = program_of(d, fourcc)->0;
    let ws = counted_words(d)->0;
    lemma_table_entry(shader_types(), field(ws[0], 16, 0xFFFF));
    lemma_instructions(ws, 2);
    let is = p.instructions;
    assert forall|k: int| 0 <= k < is.len() implies simple_instruction(#[trigger] is[k]) by {
        assert(p.instructions[k] == is[k]);
    }
    assert(valid_program(p));
    program_reads_back(p, ft);
}

} // verus!
