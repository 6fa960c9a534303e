//! What stands where in the words of operands and instructions.

use vstd::prelude::*;

use crate::meaning::numbers::{bits, first};
use crate::roundtrip::bytecode::{
    instruction_fits, lemma_data, lemma_data_word, lemma_decl, lemma_modified, lemma_row_word,
    lemma_row_words,
};
use crate::roundtrip::bytecode_fields::{
    lemma_first_word, lemma_link, lemma_low_bits, lemma_near_modifiers, lemma_offset_word,
    near_modifiers,
};
use crate::roundtrip::bytecode_operands::{components_fit, lemma_operand_word, register_fits};
use crate::roundtrip::recoded::lemma_mask;
use crate::shex::decode::{field, modifiers_of};
use crate::shex::encode::{
    all_operands, body_words, chained, data_class, data_words, extra_words, index_words,
    indices_words, instruction_words, instructions_words, modifier_bits, offset_word, operand_word,
    operand_words, operands_words, program_words, takes_modifiers,
};
use crate::shex::ir::{
    ComponentSelect, CustomDataType, IndexModel, InstructionModel, KindModel, Opcode, OperandModel,
    ProgramModel,
};
use crate::shex::opcodes::opcode_values;

verus! {

// ---------------------------------------------------------------------------
// Operands
// ---------------------------------------------------------------------------

/// The number of a kind of index: a word, two words, another operand, or another
/// operand and a word.
pub open spec fn kind_number(ix: IndexModel) -> u32 {
    if ix is Imm32 {
        0
    } else if ix is Imm64 {
        1
    } else if ix is Relative {
        2
    } else {
        3
    }
}

/// The word of an operand: how many components it has in bits 0 and 1, how they are
/// selected in bits 2 and 3, which in bits 4 to 11, the register file in bits 12 to
/// 19, the number of indices in bits 20 and 21, their kinds in three bits each from
/// bit 22 on, and in bit 31 whether a modifier follows.
pub proof fn operand_words_have_their_fields(op: OperandModel)
    requires
        register_fits(op.reg_type),
        components_fit(op.components),
        op.indices.len() <= 3,
    ensures
        ({
            let w = operand_words(op)[0];
            &&& bits(w, 12, 0xFF) == op.reg_type.spec_to_u32()
            &&& bits(w, 20, 3) == op.indices.len()
            &&& op.indices.len() > 0 ==> bits(w, 22, 7) == kind_number(op.indices[0])
            &&& op.indices.len() > 1 ==> bits(w, 25, 7) == kind_number(op.indices[1])
            &&& op.indices.len() > 2 ==> bits(w, 28, 7) == kind_number(op.indices[2])
            &&& (bits(w, 31, 1) == 1) == (op.negate || op.abs)
            &&& match op.components {
                ComponentSelect::ZeroComponent => bits(w, 0, 3) == 0,
                ComponentSelect::OneComponent => bits(w, 0, 3) == 1,
                ComponentSelect::Mask(m) => bits(w, 0, 3) == 2 && bits(w, 2, 3) == 0 && bits(
                    w,
                    4,
                    0xF,
                ) == m,
                ComponentSelect::Swizzle(s) => bits(w, 0, 3) == 2 && bits(w, 2, 3) == 1 && bits(
                    w,
                    4,
                    3,
                ) == s@[0] && bits(w, 6, 3) == s@[1] && bits(w, 8, 3) == s@[2] && bits(w, 10, 3)
                    == s@[3],
                ComponentSelect::Scalar(c) => bits(w, 0, 3) == 2 && bits(w, 2, 3) == 2 && bits(
                    w,
                    4,
                    3,
                ) == c,
            }
        }),
{
    let w = operand_word(op);
    lemma_operand_word(op);
    assert(operand_words(op)[0] == w);
    lemma_small(w, 4, 0xF);
    lemma_small(w, 4, 3);
    lemma_small(w, 6, 3);
    lemma_small(w, 8, 3);
    lemma_small(w, 10, 3);
    match op.components {
        ComponentSelect::Swizzle(s) => {
            let t = [
                field(w, 4, 3) as u8,
                field(w, 6, 3) as u8,
                field(w, 8, 3) as u8,
                field(w, 10, 3) as u8,
            ];
            assert(t == s);
            assert(t@[0] == s@[0] && t@[1] == s@[1] && t@[2] == s@[2] && t@[3] == s@[3]);
        },
        _ => {},
    }
}

proof fn lemma_small(w: u32, s: u32, m: u32)
    ensures
        field(w, s, m) <= m,
{
    lemma_mask(w, s, m);
}

/// Behind its word an operand has the word of its modifier, where it has one: 0x41
/// for a negated value, 0x81 for the absolute value, 0xC1 for both. Its immediate
/// values stand last, in their order.
pub proof fn operand_parts_have_their_places(op: OperandModel)
    ensures
        ({
            let ws = operand_words(op);
            let n = ws.len() as int;
            let m = op.immediate_values.len() as int;
            &&& op.negate && !op.abs ==> ws[1] == 0x41
            &&& !op.negate && op.abs ==> ws[1] == 0x81
            &&& op.negate && op.abs ==> ws[1] == 0xC1
            &&& m <= n
            &&& ws.subrange(n - m, n) == op.immediate_values
        }),
{
    let ws = operand_words(op);
    let n = ws.len() as int;
    let m = op.immediate_values.len() as int;
    assert(ws.subrange(n - m, n) =~= op.immediate_values);
}

/// The words of an operand with one index that is a number: its word, the modifier's
/// word, and the number.
pub proof fn numbered_operands_have_their_words(op: OperandModel, v: u32)
    requires
        op.indices == seq![IndexModel::Imm32(v)],
        op.immediate_values.len() == 0,
        !op.negate,
        !op.abs,
    ensures
        operand_words(op) == seq![operand_word(op), v],
{
    reveal_with_fuel(indices_words, 2);
    assert(op.indices[0] == IndexModel::Imm32(v));
    assert(operand_words(op) =~= seq![operand_word(op), v]);
}

/// The words of one index: a number; the high half of a number of two words before
/// the low half; another operand; a number before another operand.
pub proof fn indices_have_their_words(ix: IndexModel)
    ensures
        match ix {
            IndexModel::Imm32(v) => index_words(ix) == seq![v],
            IndexModel::Imm64(v) => index_words(ix) == seq![
                (v as int / 0x1_0000_0000) as u32,
                (v as int % 0x1_0000_0000) as u32,
            ],
            IndexModel::Relative(op) => index_words(ix) == operand_words(*op),
            IndexModel::RelativePlusImm(v, op) => index_words(ix) == seq![v] + operand_words(*op),
        },
{
    match ix {
        IndexModel::Imm64(v) => {
            assert((v >> 32) == v / 0x1_0000_0000 && (v & 0xffff_ffff) == v % 0x1_0000_0000)
                by (bit_vector);
        },
        _ => {},
    }
}

/// Indices stand one behind the other, in their order.
pub proof fn indices_stand_in_order(ix: Seq<IndexModel>, k: int)
    requires
        0 <= k < ix.len(),
    ensures
        indices_words(ix, k + 1) == indices_words(ix, k) + index_words(ix[k]),
        indices_words(ix, 0) == Seq::<u32>::empty(),
{
}

/// Operands stand one behind the other, in their order.
pub proof fn operands_stand_in_order(ops: Seq<OperandModel>, k: int)
    requires
        0 <= k < ops.len(),
    ensures
        operands_words(ops, k + 1) == operands_words(ops, k) + operand_words(ops[k]),
        operands_words(ops, 0) == Seq::<u32>::empty(),
{
}

// ---------------------------------------------------------------------------
// Instructions
// ---------------------------------------------------------------------------

/// An instruction begins with the number of its opcode in bits 0 to 10 and the number
/// of its words in bits 24 to 30; a data block has the latter as its second word.
pub proof fn instructions_begin_with_their_opcode(i: InstructionModel)
    requires
        instruction_fits(i),
    ensures
        bits(first(i), 0, 0x7FF) == i.opcode.spec_to_u32(),
        if i.kind is CustomData {
            instruction_words(i)[1] == instruction_words(i).len()
        } else {
            bits(first(i), 24, 0x7F) == instruction_words(i).len()
        },
{
    reveal(instruction_fits);
    opcode_values(field(first(i), 0, 0x7FF));
    if i.kind is CustomData {
        lemma_data(i);
    } else if takes_modifiers(i.kind) {
        lemma_modified(i);
    } else {
        lemma_decl(i);
    }
}

/// Modifiers in the first word: saturation is bit 13, the test for non-zero bit 18,
/// the components computed precisely are bits 19 to 22; what a size query returns
/// stands in bits 11 and 12, and what a barrier synchronises in bits 11 to 14. Bit 31
/// tells whether further words follow.
pub proof fn modifiers_have_their_bits(i: InstructionModel)
    requires
        instruction_fits(i),
        takes_modifiers(i.kind),
    ensures
        ({
            let w = first(i);
            let m = i.mods;
            &&& i.opcode != Opcode::Sync ==> (bits(w, 13, 1) == 1) == m.saturate
            &&& (bits(w, 18, 1) == 1) == m.test_nonzero
            &&& bits(w, 19, 0xF) == m.precise_mask
            &&& m.resinfo_return_type is Some ==> bits(w, 11, 3) == m.resinfo_return_type->0
            &&& i.opcode == Opcode::Sync ==> bits(w, 11, 0xF) == m.sync_flags
            &&& (bits(w, 31, 1) == 1) == (m.tex_offsets is Some || m.resource_dim is Some
                || m.resource_return_type is Some)
        }),
{
    reveal(instruction_fits);
    let w = first(i);
    let o = i.opcode.spec_to_u32();
    let e = chained(extra_words(i.mods));
    let rest = e + body_words(i.kind);
    let n = (1 + rest.len()) as u32;
    let x = if e.len() > 0 {
        0x8000_0000u32
    } else {
        0u32
    };
    lemma_near_modifiers(i.opcode, i.mods, w);
    lemma_first_word(o, modifier_bits(i.mods), n, x);
    assert(modifiers_of(i.opcode, w) == near_modifiers(i.mods));
    lemma_small(w, 19, 0xF);
    lemma_small(w, 11, 3);
    lemma_small(w, 11, 0xF);
}

/// What is left of a word without its highest bit.
pub open spec fn low(w: u32) -> u32 {
    w & 0x7FFF_FFFF
}

/// The further words of modifiers stand behind the first: that of texel offsets, of
/// the resource dimension and of the resource return types, in this order, each but
/// the last with its highest bit set. The word of texel offsets has 1 in its lowest
/// six bits and the offsets as numbers of four bits from bits 9, 13 and 17 on.
pub proof fn further_words_have_their_places(i: InstructionModel)
    requires
        instruction_fits(i),
        takes_modifiers(i.kind),
    ensures
        ({
            let ws = instruction_words(i);
            let m = i.mods;
            let a = if m.tex_offsets is Some {
                2int
            } else {
                1
            };
            let b = if m.resource_dim is Some {
                a + 1
            } else {
                a
            };
            &&& m.tex_offsets is Some ==> {
                let o = m.tex_offsets->0;
                &&& bits(ws[1], 0, 0x3F) == 1
                &&& bits(ws[1], 9, 0xF) == o[0] as int % 16
                &&& bits(ws[1], 13, 0xF) == o[1] as int % 16
                &&& bits(ws[1], 17, 0xF) == o[2] as int % 16
                &&& (bits(ws[1], 31, 1) == 1) == (m.resource_dim is Some || m.resource_return_type
                    is Some)
            }
            &&& m.resource_dim is Some ==> low(ws[a]) == m.resource_dim->0 && (bits(ws[a], 31, 1)
                == 1) == m.resource_return_type is Some
            &&& m.resource_return_type is Some ==> ws[b] == m.resource_return_type->0
        }),
{
    reveal(instruction_fits);
    let ws = instruction_words(i);
    let m = i.mods;
    let e = extra_words(m);
    let c = chained(e);
    let n = e.len() as int;
    assert forall|k: int| 0 <= k < n implies #[trigger] ws[1 + k] == c[k] by {}
    let a = if m.tex_offsets is Some {
        1int
    } else {
        0
    };
    let b = if m.resource_dim is Some {
        a + 1
    } else {
        a
    };
    if m.tex_offsets is Some {
        let o = m.tex_offsets->0;
        lemma_offset_word(o);
        lemma_link(offset_word(o), n > 1);
        assert(e[0] == offset_word(o));
        assert(ws[1 + 0int] == c[0]);
    }
    if m.resource_dim is Some {
        let r = m.resource_dim->0;
        lemma_low_bits(r);
        lemma_link(r, n > a + 1);
        assert(e[a] == r);
        assert(ws[1 + a] == c[a]);
    }
    if m.resource_return_type is Some {
        let r = m.resource_return_type->0;
        lemma_low_bits(r);
        assert(e[b] == r);
        assert(ws[1 + b] == c[b]);
    }
}

/// The operands of an instruction stand behind the words of its modifiers, up to its
/// end.
pub proof fn operands_stand_behind_modifiers(i: InstructionModel, ops: Seq<OperandModel>)
    requires
        i.kind == (KindModel::Generic { operands: ops }),
    ensures
        instruction_words(i).skip(1 + extra_words(i.mods).len() as int) == all_operands(ops),
        instruction_words(i).len() == 1 + extra_words(i.mods).len() + all_operands(ops).len(),
{
    assert(instruction_words(i).skip(1 + extra_words(i.mods).len() as int) =~= all_operands(ops));
}

/// What a declaration has behind its first word: its numbers in their order, or its
/// operands and then a number.
pub proof fn declarations_have_their_words(i: InstructionModel)
    ensures
        ({
            let ws = instruction_words(i).skip(1);
            match i.kind {
                KindModel::DclTemps { count } => ws == seq![count],
                KindModel::DclMaxOutputVertexCount { count } => ws == seq![count],
                KindModel::DclGsInstanceCount { count } => ws == seq![count],
                KindModel::DclHsForkPhaseInstanceCount { count } => ws == seq![count],
                KindModel::DclHsMaxTessFactor { value } => ws == seq![value],
                KindModel::DclFunctionBody { index } => ws == seq![index],
                KindModel::DclIndexableTemp { reg, size, components } => ws == seq![
                    reg,
                    size,
                    components,
                ],
                KindModel::DclThreadGroup { x, y, z } => ws == seq![x, y, z],
                KindModel::DclIndexRange { operands, count } => ws == all_operands(operands) + seq![
                    count,
                ],
                KindModel::DclResourceStructured { stride, operands } => ws == all_operands(
                    operands,
                ) + seq![stride],
                KindModel::DclUavStructured { stride, operands, .. } => ws == all_operands(operands)
                    + seq![stride],
                KindModel::DclSampler { operands, .. } => ws == all_operands(operands),
                KindModel::DclConstantBuffer { operands, .. } => ws == all_operands(operands),
                KindModel::DclUavRaw { operands, .. } => ws == all_operands(operands),
                KindModel::DclResourceRaw { operands } => ws == all_operands(operands),
                KindModel::DclFunctionTable { table_index, body_indices } => ws == seq![
                    table_index,
                    body_indices.len() as u32,
                ] + body_indices,
                KindModel::DclInterface { interface_index, num_call_sites, table_indices } => ws[0]
                    == interface_index && ws[1] == num_call_sites && ws.skip(3) == table_indices,
                KindModel::DclResource { operands, .. } => ws.drop_last() == all_operands(operands),
                KindModel::DclUavTyped { operands, .. } => ws.drop_last() == all_operands(operands),
                KindModel::DclOutput { system_value, operands } => if system_value is Some {
                    ws.drop_last() == all_operands(operands)
                } else {
                    ws == all_operands(operands)
                },
                KindModel::DclInput { system_value, operands, .. } => if system_value is Some {
                    ws.drop_last() == all_operands(operands)
                } else {
                    ws == all_operands(operands)
                },
                _ => true,
            }
        }),
{
    let ws = instruction_words(i).skip(1);
    if !(i.kind is CustomData) && !takes_modifiers(i.kind) {
        assert(ws =~= body_words(i.kind));
    }
    match i.kind {
        KindModel::DclInterface { table_indices, .. } => {
            assert(ws.skip(3) =~= table_indices);
        },
        KindModel::DclResource { operands, .. } => {
            assert(ws.drop_last() =~= all_operands(operands));
        },
        KindModel::DclUavTyped { operands, .. } => {
            assert(ws.drop_last() =~= all_operands(operands));
        },
        KindModel::DclOutput { system_value, operands } => {
            if system_value is Some {
                assert(ws.drop_last() =~= all_operands(operands));
            } else {
                assert(ws =~= all_operands(operands));
            }
        },
        KindModel::DclInput { system_value, operands, .. } => {
            if system_value is Some {
                assert(ws.drop_last() =~= all_operands(operands));
            } else {
                assert(ws =~= all_operands(operands));
            }
        },
        _ => {},
    }
}

/// A data block: the number of its kind from bit 11 of the first word on, the number
/// of all words, and then its words; the rows of constants one behind the other, four
/// words each.
pub proof fn data_blocks_have_their_words(i: InstructionModel, k: int, j: int)
    requires
        instruction_fits(i),
        i.kind is CustomData,
    ensures
        match i.kind {
            KindModel::CustomData { subtype, values, raw, .. } => {
                let ws = instruction_words(i);
                &&& ws[0] >> 11 == match subtype {
                    CustomDataType::Comment => 0u32,
                    CustomDataType::DebugInfo => 1u32,
                    CustomDataType::Opaque => 2u32,
                    CustomDataType::ImmediateConstantBuffer => 3u32,
                    CustomDataType::Other(v) => v,
                }
                &&& !(subtype is ImmediateConstantBuffer) ==> ws.skip(2) == raw
                &&& subtype is ImmediateConstantBuffer && 0 <= k < values.len() && 0 <= j < 4
                    ==> ws[2 + 4 * k + j] == values[k][j]
                &&& subtype is ImmediateConstantBuffer ==> ws.len() == 2 + 4 * values.len()
            },
            _ => false,
        },
{
    reveal(instruction_fits);
    let ws = instruction_words(i);
    match i.kind {
        KindModel::CustomData { subtype, values, raw, .. } => {
            let d = data_words(subtype, values, raw);
            lemma_data_word(i.opcode.spec_to_u32(), data_class(subtype));
            assert(ws.skip(2) =~= d);
            if subtype is ImmediateConstantBuffer {
                lemma_row_words(values, values.len() as int);
                if 0 <= k < values.len() && 0 <= j < 4 {
                    lemma_row_word(values, values.len() as int, k, j);
                    assert(ws[2 + 4 * k + j] == d[4 * k + j]);
                }
            }
        },
        _ => {},
    }
}

/// Instructions stand one behind the other in their order, from the third word on.
pub proof fn instructions_stand_in_order(p: ProgramModel, k: int)
    requires
        0 <= k < p.instructions.len(),
    ensures
        program_words(p).skip(2) == instructions_words(
            p.instructions,
            p.instructions.len() as int,
        ),
        instructions_words(p.instructions, k + 1) == instructions_words(p.instructions, k)
            + instruction_words(p.instructions[k]),
        instructions_words(p.instructions, 0) == Seq::<u32>::empty(),
{
    assert(program_words(p).skip(2) =~= instructions_words(
        p.instructions,
        p.instructions.len() as int,
    ));
}

} // verus!
