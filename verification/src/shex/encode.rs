//! Shader programs as bytecode.
//!
//! An instruction is a word with the opcode and the number of words, further
//! words where extra modifiers are set, and then its operands or numbers.

use vstd::prelude::*;

use crate::bytes::{push_u32, words_bytes};
use crate::grammar::tables::{
    cb_access, cb_access_table, dimensions, dimensions_table, global_flags, global_flags_table,
    interpolations, interpolations_table, sampler_modes, sampler_modes_table, shader_types,
    shader_types_table, system_value_number, system_value_to_u32, table_value, tess_domains,
    tess_domains_table, tess_output_prims, tess_output_prims_table, tess_partitionings,
    tess_partitionings_table, value_of, NameTable,
};
use crate::shex::ir::{
    ComponentSelect, CustomDataType, FlagNames, GsOutputTopology, GsPrimitive, IndexModel,
    Instruction, InstructionKind, InstructionModel, KindModel, Modifiers, Operand, OperandIndex,
    OperandModel, Operands, Program, ProgramModel, ReturnType, SmallU32Vec, index_models,
    instruction_models, lemma_operand_model, operand_models, opt_text,
};
use crate::shex::lists::flag_items;
use crate::text::{chars_of, lemma_cat3};

verus! {

// ---------------------------------------------------------------------------
// Operands
// ---------------------------------------------------------------------------

/// The bits of a component selection in an operand word.
pub open spec fn component_bits(c: ComponentSelect) -> u32 {
    match c {
        ComponentSelect::ZeroComponent => 0,
        ComponentSelect::OneComponent => 1,
        ComponentSelect::Mask(m) => 2u32 | (((m & 0xF) as u32) << 4),
        ComponentSelect::Swizzle(s) => 6u32 | (((s[0] & 3) as u32) << 4) | (((s[1] & 3) as u32) << 6)
            | (((s[2] & 3) as u32) << 8) | (((s[3] & 3) as u32) << 10),
        ComponentSelect::Scalar(c) => 10u32 | (((c & 3) as u32) << 4),
    }
}

/// The number of a kind of index.
pub open spec fn index_kind(ix: IndexModel) -> u32 {
    match ix {
        IndexModel::Imm32(_) => 0,
        IndexModel::Imm64(_) => 1,
        IndexModel::Relative(_) => 2,
        IndexModel::RelativePlusImm(_, _) => 3,
    }
}

/// The kind of index number `k`, nought where there is none.
pub open spec fn kind_at(ix: Seq<IndexModel>, k: int) -> u32 {
    if 0 <= k < ix.len() {
        index_kind(ix[k])
    } else {
        0
    }
}

/// Whether the operand has a modifier.
pub open spec fn is_modified(op: OperandModel) -> bool {
    op.negate || op.abs
}

/// The operand word.
pub open spec fn operand_word(op: OperandModel) -> u32 {
    component_bits(op.components) | ((op.reg_type.spec_to_u32() & 0xFF) << 12) | (((
    op.indices.len() as u32) & 3) << 20) | (kind_at(op.indices, 0) << 22) | (kind_at(op.indices, 1)
        << 25) | (kind_at(op.indices, 2) << 28) | (if is_modified(op) {
        0x8000_0000u32
    } else {
        0u32
    })
}

/// The word of the operand's modifier, where it has one.
pub open spec fn modifier_words(op: OperandModel) -> Seq<u32> {
    if op.negate && op.abs {
        seq![0xC1u32]
    } else if op.negate {
        seq![0x41u32]
    } else if op.abs {
        seq![0x81u32]
    } else {
        Seq::empty()
    }
}

/// The words of an operand.
pub open spec fn operand_words(op: OperandModel) -> Seq<u32>
    decreases op, 1int,
{
    seq![operand_word(op)] + modifier_words(op) + indices_words(op.indices, op.indices.len() as int)
        + op.immediate_values
}

/// The words of the first `n` indices.
pub open spec fn indices_words(ix: Seq<IndexModel>, n: int) -> Seq<u32>
    decreases ix, n,
{
    if n <= 0 || n > ix.len() {
        Seq::empty()
    } else {
        indices_words(ix, n - 1) + index_words(ix[n - 1])
    }
}

/// The words of one index.
pub open spec fn index_words(ix: IndexModel) -> Seq<u32>
    decreases ix, 0int,
{
    match ix {
        IndexModel::Imm32(v) => seq![v],
        IndexModel::Imm64(v) => seq![(v >> 32) as u32, (v & 0xffff_ffff) as u32],
        IndexModel::Relative(op) => operand_words(*op),
        IndexModel::RelativePlusImm(v, op) => seq![v] + operand_words(*op),
    }
}

/// The words of the first `n` operands.
pub open spec fn operands_words(ops: Seq<OperandModel>, n: int) -> Seq<u32>
    decreases n,
{
    if n <= 0 {
        Seq::empty()
    } else {
        operands_words(ops, n - 1) + operand_words(ops[n - 1])
    }
}

/// The words of all operands.
pub open spec fn all_operands(ops: Seq<OperandModel>) -> Seq<u32> {
    operands_words(ops, ops.len() as int)
}

fn component_bits_of(c: &ComponentSelect) -> (r: u32)
    ensures
        r == component_bits(*c),
{
    match c {
        ComponentSelect::ZeroComponent => 0,
        ComponentSelect::OneComponent => 1,
        ComponentSelect::Mask(m) => 2u32 | (((*m & 0xF) as u32) << 4),
        ComponentSelect::Swizzle(s) => 6u32 | (((s[0] & 3) as u32) << 4) | (((s[1] & 3) as u32) << 6)
            | (((s[2] & 3) as u32) << 8) | (((s[3] & 3) as u32) << 10),
        ComponentSelect::Scalar(c) => 10u32 | (((*c & 3) as u32) << 4),
    }
}

fn kind_of(ix: &Vec<OperandIndex>, k: usize) -> (r: u32)
    ensures
        r == kind_at(index_models(ix@), k as int),
{
    if k < ix.len() {
        assert(index_models(ix@)[k as int] == ix@[k as int].model());
        match &ix[k] {
            OperandIndex::Imm32(_) => 0,
            OperandIndex::Imm64(_) => 1,
            OperandIndex::Relative(_) => 2,
            OperandIndex::RelativePlusImm(_, _) => 3,
        }
    } else {
        0
    }
}

fn push_words(w: &mut Vec<u32>, s: &[u32])
    ensures
        final(w)@ == old(w)@ + s@,
{
    let mut i: usize = 0;
    while i < s.len()
        invariant
            i <= s.len(),
            w@ == old(w)@ + s@.take(i as int),
        decreases s.len() - i,
    {
        w.push(s[i]);
        i += 1;
        assert(w@ =~= old(w)@ + s@.take(i as int));
    }
    assert(s@.take(i as int) =~= s@);
}

/// Append the words of an operand.
fn encode_operand(w: &mut Vec<u32>, op: &Operand)
    ensures
        final(w)@ == old(w)@ + operand_words(op.model()),
    decreases op, 1int,
{
    let ghost m = op.model();
    proof {
        lemma_operand_model(*op);
    }
    let word: u32 = component_bits_of(&op.components) | ((op.reg_type.to_u32() & 0xFF) << 12) | (((
    op.indices.len() as u32) & 3) << 20) | (kind_of(&op.indices, 0) << 22) | (kind_of(
        &op.indices,
        1,
    ) << 25) | (kind_of(&op.indices, 2) << 28) | (if op.negate || op.abs {
        0x8000_0000u32
    } else {
        0u32
    });
    assert(word == operand_word(m));
    let mut o: Vec<u32> = Vec::new();
    o.push(word);
    assert(o@ =~= seq![operand_word(m)]);
    if op.negate && op.abs {
        o.push(0xC1);
    } else if op.negate {
        o.push(0x41);
    } else if op.abs {
        o.push(0x81);
    }
    assert(o@ =~= seq![operand_word(m)] + modifier_words(m));
    encode_indices(&mut o, &op.indices);
    push_words(&mut o, op.immediate_values.as_slice());
    push_words(w, o.as_slice());
}

fn encode_indices(w: &mut Vec<u32>, indices: &Vec<OperandIndex>)
    ensures
        final(w)@ == old(w)@ + indices_words(index_models(indices@), indices@.len() as int),
    decreases indices, 0int,
{
    let ghost ix = index_models(indices@);
    let mut i: usize = 0;
    assert(w@ =~= old(w)@ + Seq::<u32>::empty());
    while i < indices.len()
        invariant
            ix == index_models(indices@),
            i <= indices.len(),
            w@ == old(w)@ + indices_words(ix, i as int),
        decreases indices.len() - i,
    {
        assert(ix[i as int] == indices@[i as int].model());
        assert(decreases_to!(indices => indices@[i as int]));
        encode_index(w, &indices[i]);
        proof {
            lemma_cat3(old(w)@, indices_words(ix, i as int), index_words(ix[i as int]));
        }
        i += 1;
    }
}

fn encode_index(w: &mut Vec<u32>, idx: &OperandIndex)
    ensures
        final(w)@ == old(w)@ + index_words(idx.model()),
    decreases idx, 0int,
{
    match idx {
        OperandIndex::Imm32(v) => {
            w.push(*v);
            assert(w@ =~= old(w)@ + index_words(idx.model()));
        },
        OperandIndex::Imm64(v) => {
            w.push((*v >> 32) as u32);
            w.push((*v & 0xffff_ffff) as u32);
            assert(w@ =~= old(w)@ + index_words(idx.model()));
        },
        OperandIndex::Relative(op) => {
            encode_operand(w, op);
        },
        OperandIndex::RelativePlusImm(v, op) => {
            w.push(*v);
            assert(w@ =~= old(w)@ + seq![*v]);
            encode_operand(w, op);
            proof {
                lemma_cat3(old(w)@, seq![*v], operand_words(op.model()));
            }
        },
    }
}

fn encode_operands(w: &mut Vec<u32>, operands: &Operands)
    ensures
        final(w)@ == old(w)@ + all_operands(operand_models(operands@)),
{
    let ops = operands.as_slice();
    let ghost ms = operand_models(operands@);
    let mut i: usize = 0;
    assert(w@ =~= old(w)@ + Seq::<u32>::empty());
    while i < ops.len()
        invariant
            ops@ == operands@,
            ms == operand_models(operands@),
            i <= ops.len(),
            w@ == old(w)@ + operands_words(ms, i as int),
        decreases ops.len() - i,
    {
        assert(ms[i as int] == ops@[i as int].model());
        encode_operand(w, &ops[i]);
        proof {
            lemma_cat3(old(w)@, operands_words(ms, i as int), operand_words(ms[i as int]));
        }
        i += 1;
    }
}

// ---------------------------------------------------------------------------
// Instructions
// ---------------------------------------------------------------------------

/// The number of a name, nought where the table does not hold it.
pub open spec fn code_of(t: NameTable, name: Seq<char>) -> u32 {
    match table_value(t, name) {
        Some(v) => v,
        None => 0,
    }
}

/// The bits of the first `n` global flags.
pub open spec fn flag_bits(flags: Seq<Seq<char>>, n: int) -> u32
    decreases n,
{
    if n <= 0 {
        0
    } else {
        flag_bits(flags, n - 1) | (match table_value(global_flags(), flags[n - 1]) {
            Some(b) => if b < 8 {
                1u32 << ((11 + b) as u32)
            } else {
                0
            },
            None => 0u32,
        })
    }
}

/// The return-type word of a declaration.
pub open spec fn types_word(rt: [ReturnType; 4]) -> u32 {
    (rt[0].spec_to_u32() & 0xF) | ((rt[1].spec_to_u32() & 0xF) << 4) | ((rt[2].spec_to_u32() & 0xF)
        << 8) | ((rt[3].spec_to_u32() & 0xF) << 12)
}

/// The number of a geometry shader's input primitive.
pub open spec fn primitive_code(p: GsPrimitive) -> u32 {
    match p {
        GsPrimitive::Undefined => 0,
        GsPrimitive::Point => 1,
        GsPrimitive::Line => 2,
        GsPrimitive::Triangle => 3,
        GsPrimitive::LineAdj => 6,
        GsPrimitive::TriangleAdj => 7,
        GsPrimitive::ControlPointPatch(n) => (7 + n) as u32,
    }
}

/// The number of a geometry shader's output topology.
pub open spec fn topology_code(t: GsOutputTopology) -> u32 {
    match t {
        GsOutputTopology::Undefined => 0,
        GsOutputTopology::PointList => 1,
        GsOutputTopology::LineList => 2,
        GsOutputTopology::LineStrip => 3,
        GsOutputTopology::TriangleList => 4,
        GsOutputTopology::TriangleStrip => 5,
        GsOutputTopology::LineListAdj => 10,
        GsOutputTopology::LineStripAdj => 11,
        GsOutputTopology::TriangleListAdj => 12,
        GsOutputTopology::TriangleStripAdj => 13,
    }
}

/// The bits that a declaration sets in its first word, beside the opcode and the
/// length.
pub open spec fn control_bits(k: KindModel) -> u32 {
    match k {
        KindModel::DclGlobalFlags { flags } => flag_bits(flags, flags.len() as int),
        KindModel::DclInput { interpolation, .. } => match interpolation {
            Some(n) => code_of(interpolations(), n) << 11,
            None => 0,
        },
        KindModel::DclResource { dimension, sample_count, .. } => (code_of(dimensions(), dimension)
            << 11) | ((sample_count & 0x7F) << 16),
        KindModel::DclSampler { mode, .. } => code_of(sampler_modes(), mode) << 11,
        KindModel::DclConstantBuffer { access, .. } => code_of(cb_access(), access) << 11,
        KindModel::DclGsInputPrimitive { primitive } => (primitive_code(primitive) & 0x3F) << 11,
        KindModel::DclGsOutputTopology { topology } => topology_code(topology) << 11,
        KindModel::DclOutputControlPointCount { count } => (count & 0x3F) << 11,
        KindModel::DclInputControlPointCount { count } => (count & 0x3F) << 11,
        KindModel::DclTessDomain { domain } => code_of(tess_domains(), domain) << 11,
        KindModel::DclTessPartitioning { partitioning } => code_of(
            tess_partitionings(),
            partitioning,
        ) << 11,
        KindModel::DclTessOutputPrimitive { primitive } => code_of(
            tess_output_prims(),
            primitive,
        ) << 11,
        KindModel::DclUavTyped { dimension, flags, .. } => (code_of(dimensions(), dimension) << 11)
            | ((flags & 0xFF) << 16),
        KindModel::DclUavRaw { flags, .. } => (flags & 0xFF) << 16,
        KindModel::DclUavStructured { flags, .. } => (flags & 0xFF) << 16,
        _ => 0,
    }
}

/// The word of a system value, where there is one.
pub open spec fn sv_words(s: Option<Seq<char>>) -> Seq<u32> {
    match s {
        Some(n) => seq![system_value_number(n)],
        None => Seq::empty(),
    }
}

/// The words of an instruction behind its first.
pub open spec fn body_words(k: KindModel) -> Seq<u32> {
    match k {
        KindModel::Generic { operands } => all_operands(operands),
        KindModel::DclInput { system_value, operands, .. } => all_operands(operands) + sv_words(
            system_value,
        ),
        KindModel::DclOutput { system_value, operands } => all_operands(operands) + sv_words(
            system_value,
        ),
        KindModel::DclResource { return_type, operands, .. } => all_operands(operands)
            + seq![types_word(return_type)],
        KindModel::DclUavTyped { return_type, operands, .. } => all_operands(operands)
            + seq![types_word(return_type)],
        KindModel::DclSampler { operands, .. } => all_operands(operands),
        KindModel::DclConstantBuffer { operands, .. } => all_operands(operands),
        KindModel::DclUavRaw { operands, .. } => all_operands(operands),
        KindModel::DclResourceRaw { operands } => all_operands(operands),
        KindModel::DclUavStructured { stride, operands, .. } => all_operands(operands)
            + seq![stride],
        KindModel::DclResourceStructured { stride, operands } => all_operands(operands)
            + seq![stride],
        KindModel::DclIndexRange { operands, count } => all_operands(operands) + seq![count],
        KindModel::DclTemps { count } => seq![count],
        KindModel::DclMaxOutputVertexCount { count } => seq![count],
        KindModel::DclGsInstanceCount { count } => seq![count],
        KindModel::DclHsForkPhaseInstanceCount { count } => seq![count],
        KindModel::DclFunctionBody { index } => seq![index],
        KindModel::DclHsMaxTessFactor { value } => seq![value],
        KindModel::DclIndexableTemp { reg, size, components } => seq![reg, size, components],
        KindModel::DclThreadGroup { x, y, z } => seq![x, y, z],
        KindModel::DclFunctionTable { table_index, body_indices } => seq![
            table_index,
            body_indices.len() as u32,
        ] + body_indices,
        KindModel::DclInterface { interface_index, num_call_sites, table_indices } => seq![
            interface_index,
            num_call_sites,
            ((table_indices.len() as u32) & 0xFFFF) | 0x1_0000u32,
        ] + table_indices,
        _ => Seq::empty(),
    }
}

/// The modifier bits of the first word.
pub open spec fn modifier_bits(m: Modifiers) -> u32 {
    (match m.resinfo_return_type {
        Some(n) => ((n & 3) as u32) << 11,
        None => 0u32,
    }) | (if m.saturate {
        0x2000u32
    } else {
        0u32
    }) | (if m.test_nonzero {
        0x4_0000u32
    } else {
        0u32
    }) | (((m.precise_mask & 0xF) as u32) << 19) | (((m.sync_flags & 0xF) as u32) << 11)
}

/// The low four bits of a signed number.
pub open spec fn nibble(v: i8) -> u32 {
    (v as int % 16) as u32
}

/// The word of texel offsets.
pub open spec fn offset_word(o: [i8; 3]) -> u32 {
    1u32 | (nibble(o[0]) << 9) | (nibble(o[1]) << 13) | (nibble(o[2]) << 17)
}

/// The further words of an instruction's modifiers, without the bit that says
/// that another follows.
pub open spec fn extra_words(m: Modifiers) -> Seq<u32> {
    (match m.tex_offsets {
        Some(o) => seq![offset_word(o)],
        None => Seq::empty(),
    }) + (match m.resource_dim {
        Some(r) => seq![r & 0x7FFF_FFFF],
        None => Seq::empty(),
    }) + (match m.resource_return_type {
        Some(r) => seq![r & 0x7FFF_FFFF],
        None => Seq::empty(),
    })
}

/// The words, each but the last with the bit that says that another follows.
pub open spec fn chained(ws: Seq<u32>) -> Seq<u32> {
    Seq::new(
        ws.len(),
        |i: int|
            if i + 1 < ws.len() {
                ws[i] | 0x8000_0000u32
            } else {
                ws[i]
            },
    )
}

/// Whether the instruction's modifiers are part of its bytecode.
pub open spec fn takes_modifiers(k: KindModel) -> bool {
    k is Generic || k is HsPhase
}

/// The number of a data block's kind.
pub open spec fn data_class(t: CustomDataType) -> u32 {
    match t {
        CustomDataType::Comment => 0,
        CustomDataType::DebugInfo => 1,
        CustomDataType::Opaque => 2,
        CustomDataType::ImmediateConstantBuffer => 3,
        CustomDataType::Other(v) => v,
    }
}

/// The words of the first `n` rows.
pub open spec fn row_words(rows: Seq<[u32; 4]>, n: int) -> Seq<u32>
    decreases n,
{
    if n <= 0 {
        Seq::empty()
    } else {
        row_words(rows, n - 1) + rows[n - 1]@
    }
}

/// The words of a data block behind its first two.
pub open spec fn data_words(t: CustomDataType, values: Seq<[u32; 4]>, raw: Seq<u32>) -> Seq<u32> {
    if t is ImmediateConstantBuffer {
        row_words(values, values.len() as int)
    } else {
        raw
    }
}

/// The words of an instruction.
pub open spec fn instruction_words(i: InstructionModel) -> Seq<u32> {
    let op = i.opcode.spec_to_u32() & 0x7FF;
    match i.kind {
        KindModel::CustomData { subtype, values, raw, .. } => {
            let d = data_words(subtype, values, raw);
            seq![op | (data_class(subtype) << 11), (2 + d.len()) as u32] + d
        },
        _ => {
            let m = takes_modifiers(i.kind);
            let extra = if m {
                chained(extra_words(i.mods))
            } else {
                Seq::empty()
            };
            let rest = extra + body_words(i.kind);
            seq![
                op | (if m {
                    modifier_bits(i.mods)
                } else {
                    control_bits(i.kind)
                }) | ((((1 + rest.len()) as u32) & 0x7F) << 24) | (if extra.len() > 0 {
                    0x8000_0000u32
                } else {
                    0u32
                }),
            ] + rest
        },
    }
}

/// The words of the first `n` instructions.
pub open spec fn instructions_words(is: Seq<InstructionModel>, n: int) -> Seq<u32>
    decreases n,
{
    if n <= 0 {
        Seq::empty()
    } else {
        instructions_words(is, n - 1) + instruction_words(is[n - 1])
    }
}

/// The words of a program: version, number of words, and instructions.
pub open spec fn program_words(p: ProgramModel) -> Seq<u32> {
    let body = instructions_words(p.instructions, p.instructions.len() as int);
    seq![
        (code_of(shader_types(), p.shader_type) << 16) | ((p.major_version & 0xF) << 4) | (
        p.minor_version & 0xF),
        (2 + body.len()) as u32,
    ] + body
}

/// The bytecode of a program.
pub open spec fn program_bytes(p: ProgramModel) -> Seq<u8> {
    words_bytes(program_words(p))
}

fn name_code(table: &[(&'static str, u32)], name: &str) -> (r: u32)
    ensures
        r == code_of(crate::grammar::tables::table_of(table@), name@),
{
    let c = chars_of(name);
    match value_of(table, c.as_slice()) {
        Some(v) => v,
        None => 0,
    }
}

fn flag_bits_of(flags: &FlagNames) -> (r: u32)
    ensures
        r == flag_bits(flags@, flags@.len() as int),
{
    let names = flags.as_slice();
    let table = global_flags_table();
    let mut r: u32 = 0;
    let mut i: usize = 0;
    while i < names.len()
        invariant
            names@ == flag_items(*flags),
            crate::grammar::tables::table_of(table@) == global_flags(),
            i <= names.len(),
            r == flag_bits(flags@, i as int),
        decreases names.len() - i,
    {
        assert(flags@[i as int] == names@[i as int]@);
        let c = chars_of(names[i]);
        let bit: u32 = match value_of(&table, c.as_slice()) {
            Some(b) => {
                if b < 8 {
                    let n: u32 = 11 + b;
                    1u32 << n
                } else {
                    0
                }
            },
            None => 0,
        };
        r = r | bit;
        i += 1;
    }
    assert(flags@.len() == names@.len());
    r
}

fn types_word_of(rt: &[ReturnType; 4]) -> (r: u32)
    ensures
        r == types_word(*rt),
{
    (rt[0].to_u32() & 0xF) | ((rt[1].to_u32() & 0xF) << 4) | ((rt[2].to_u32() & 0xF) << 8) | ((
    rt[3].to_u32() & 0xF) << 12)
}

fn primitive_code_of(p: &GsPrimitive) -> (r: u32)
    ensures
        r == primitive_code(*p),
{
    match p {
        GsPrimitive::Undefined => 0,
        GsPrimitive::Point => 1,
        GsPrimitive::Line => 2,
        GsPrimitive::Triangle => 3,
        GsPrimitive::LineAdj => 6,
        GsPrimitive::TriangleAdj => 7,
        GsPrimitive::ControlPointPatch(n) => 7 + *n as u32,
    }
}

fn topology_code_of(t: &GsOutputTopology) -> (r: u32)
    ensures
        r == topology_code(*t),
{
    match t {
        GsOutputTopology::Undefined => 0,
        GsOutputTopology::PointList => 1,
        GsOutputTopology::LineList => 2,
        GsOutputTopology::LineStrip => 3,
        GsOutputTopology::TriangleList => 4,
        GsOutputTopology::TriangleStrip => 5,
        GsOutputTopology::LineListAdj => 10,
        GsOutputTopology::LineStripAdj => 11,
        GsOutputTopology::TriangleListAdj => 12,
        GsOutputTopology::TriangleStripAdj => 13,
    }
}

fn control_bits_of(k: &InstructionKind) -> (r: u32)
    ensures
        r == control_bits(k.model()),
{
    match k {
        InstructionKind::DclGlobalFlags { flags } => flag_bits_of(flags),
        InstructionKind::DclInput { interpolation, .. } => match interpolation {
            Some(n) => {
                let t = interpolations_table();
                name_code(&t, n) << 11
            },
            None => 0,
        },
        InstructionKind::DclResource { dimension, sample_count, .. } => {
            let t = dimensions_table();
            (name_code(&t, dimension) << 11) | ((*sample_count & 0x7F) << 16)
        },
        InstructionKind::DclSampler { mode, .. } => {
            let t = sampler_modes_table();
            name_code(&t, mode) << 11
        },
        InstructionKind::DclConstantBuffer { access, .. } => {
            let t = cb_access_table();
            name_code(&t, access) << 11
        },
        InstructionKind::DclGsInputPrimitive { primitive } => (primitive_code_of(primitive) & 0x3F)
            << 11,
        InstructionKind::DclGsOutputTopology { topology } => topology_code_of(topology) << 11,
        InstructionKind::DclOutputControlPointCount { count } => (*count & 0x3F) << 11,
        InstructionKind::DclInputControlPointCount { count } => (*count & 0x3F) << 11,
        InstructionKind::DclTessDomain { domain } => {
            let t = tess_domains_table();
            name_code(&t, domain) << 11
        },
        InstructionKind::DclTessPartitioning { partitioning } => {
            let t = tess_partitionings_table();
            name_code(&t, partitioning) << 11
        },
        InstructionKind::DclTessOutputPrimitive { primitive } => {
            let t = tess_output_prims_table();
            name_code(&t, primitive) << 11
        },
        InstructionKind::DclUavTyped { dimension, flags, .. } => {
            let t = dimensions_table();
            (name_code(&t, dimension) << 11) | ((*flags & 0xFF) << 16)
        },
        InstructionKind::DclUavRaw { flags, .. } => (*flags & 0xFF) << 16,
        InstructionKind::DclUavStructured { flags, .. } => (*flags & 0xFF) << 16,
        _ => 0,
    }
}

/// Append the word of a system value, where there is one.
fn push_sv(w: &mut Vec<u32>, s: Option<&'static str>)
    ensures
        final(w)@ == old(w)@ + sv_words(opt_text(s)),
{
    match s {
        Some(n) => {
            let c = chars_of(n);
            w.push(system_value_to_u32(c.as_slice()));
            assert(w@ =~= old(w)@ + sv_words(opt_text(s)));
        },
        None => {
            assert(w@ =~= old(w)@ + sv_words(opt_text(s)));
        },
    }
}

fn push_list(w: &mut Vec<u32>, list: &SmallU32Vec)
    ensures
        final(w)@ == old(w)@ + list@,
{
    push_words(w, list.as_slice());
}

/// The operands, and a word behind them.
fn operands_and(operands: &Operands, last: u32) -> (r: Vec<u32>)
    ensures
        r@ == all_operands(operand_models(operands@)) + seq![last],
{
    let mut w: Vec<u32> = Vec::new();
    encode_operands(&mut w, operands);
    assert(w@ =~= all_operands(operand_models(operands@)));
    w.push(last);
    assert(w@ =~= all_operands(operand_models(operands@)) + seq![last]);
    w
}

/// The operands.
fn operands_only(operands: &Operands) -> (r: Vec<u32>)
    ensures
        r@ == all_operands(operand_models(operands@)),
{
    let mut w: Vec<u32> = Vec::new();
    encode_operands(&mut w, operands);
    assert(w@ =~= all_operands(operand_models(operands@)));
    w
}

/// One word.
fn one_word(v: u32) -> (r: Vec<u32>)
    ensures
        r@ == seq![v],
{
    let mut w: Vec<u32> = Vec::new();
    w.push(v);
    assert(w@ =~= seq![v]);
    w
}

/// Three words.
fn three_words(a: u32, b: u32, c: u32) -> (r: Vec<u32>)
    ensures
        r@ == seq![a, b, c],
{
    let mut w: Vec<u32> = Vec::new();
    w.push(a);
    w.push(b);
    w.push(c);
    assert(w@ =~= seq![a, b, c]);
    w
}

fn body_of(k: &InstructionKind) -> (r: Vec<u32>)
    ensures
        r@ == body_words(k.model()),
{
    match k {
        InstructionKind::Generic { operands } => operands_only(operands),
        InstructionKind::DclInput { system_value, operands, .. } => {
            let mut w = operands_only(operands);
            push_sv(&mut w, *system_value);
            w
        },
        InstructionKind::DclOutput { system_value, operands } => {
            let mut w = operands_only(operands);
            push_sv(&mut w, *system_value);
            w
        },
        InstructionKind::DclResource { return_type, operands, .. } => operands_and(
            operands,
            types_word_of(return_type),
        ),
        InstructionKind::DclUavTyped { return_type, operands, .. } => operands_and(
            operands,
            types_word_of(return_type),
        ),
        InstructionKind::DclSampler { operands, .. } => operands_only(operands),
        InstructionKind::DclConstantBuffer { operands, .. } => operands_only(operands),
        InstructionKind::DclUavRaw { operands, .. } => operands_only(operands),
        InstructionKind::DclResourceRaw { operands } => operands_only(operands),
        InstructionKind::DclUavStructured { stride, operands, .. } => operands_and(
            operands,
            *stride,
        ),
        InstructionKind::DclResourceStructured { stride, operands } => operands_and(
            operands,
            *stride,
        ),
        InstructionKind::DclIndexRange { operands, count } => operands_and(operands, *count),
        InstructionKind::DclTemps { count } => one_word(*count),
        InstructionKind::DclMaxOutputVertexCount { count } => one_word(*count),
        InstructionKind::DclGsInstanceCount { count } => one_word(*count),
        InstructionKind::DclHsForkPhaseInstanceCount { count } => one_word(*count),
        InstructionKind::DclFunctionBody { index } => one_word(*index),
        InstructionKind::DclHsMaxTessFactor { value } => one_word(*value),
        InstructionKind::DclIndexableTemp { reg, size, components } => three_words(
            *reg,
            *size,
            *components,
        ),
        InstructionKind::DclThreadGroup { x, y, z } => three_words(*x, *y, *z),
        InstructionKind::DclFunctionTable { table_index, body_indices } => {
            let mut w = one_word(*table_index);
            w.push(body_indices.as_slice().len() as u32);
            assert(w@ =~= seq![*table_index, body_indices@.len() as u32]);
            push_list(&mut w, body_indices);
            w
        },
        InstructionKind::DclInterface { interface_index, num_call_sites, table_indices } => {
            let n: u32 = table_indices.as_slice().len() as u32;
            let mut w = three_words(*interface_index, *num_call_sites, (n & 0xFFFF) | 0x1_0000u32);
            push_list(&mut w, table_indices);
            w
        },
        _ => {
            let w: Vec<u32> = Vec::new();
            assert(w@ =~= Seq::empty());
            w
        },
    }
}

fn modifier_bits_of(i: &Instruction) -> (r: u32)
    ensures
        r == modifier_bits(i.modifiers()),
{
    (match i.resinfo_return_type {
        Some(n) => ((n & 3) as u32) << 11,
        None => 0u32,
    }) | (if i.saturate {
        0x2000u32
    } else {
        0u32
    }) | (if i.test_nonzero {
        0x4_0000u32
    } else {
        0u32
    }) | (((i.precise_mask & 0xF) as u32) << 19) | (((i.sync_flags & 0xF) as u32) << 11)
}

fn nibble_of(v: i8) -> (r: u32)
    ensures
        r == nibble(v),
{
    let w: i32 = v as i32 + 256;
    (w % 16) as u32
}

fn extra_words_of(i: &Instruction) -> (r: Vec<u32>)
    ensures
        r@ == extra_words(i.modifiers()),
{
    let mut w: Vec<u32> = Vec::new();
    match i.tex_offsets {
        Some(o) => {
            w.push(
                1u32 | (nibble_of(o[0]) << 9) | (nibble_of(o[1]) << 13) | (nibble_of(o[2]) << 17),
            );
        },
        None => {},
    }
    match i.resource_dim {
        Some(r) => {
            w.push(r & 0x7FFF_FFFF);
        },
        None => {},
    }
    match i.resource_return_type {
        Some(r) => {
            w.push(r & 0x7FFF_FFFF);
        },
        None => {},
    }
    assert(w@ =~= extra_words(i.modifiers()));
    w
}

fn chain(ws: &Vec<u32>) -> (r: Vec<u32>)
    ensures
        r@ == chained(ws@),
{
    let mut r: Vec<u32> = Vec::new();
    let mut i: usize = 0;
    while i < ws.len()
        invariant
            i <= ws.len(),
            r@ == chained(ws@).take(i as int),
        decreases ws.len() - i,
    {
        r.push(
            if i + 1 < ws.len() {
                ws[i] | 0x8000_0000u32
            } else {
                ws[i]
            },
        );
        i += 1;
        assert(r@ =~= chained(ws@).take(i as int));
    }
    assert(r@ =~= chained(ws@));
    r
}

fn rows_of(rows: &Vec<[u32; 4]>) -> (r: Vec<u32>)
    ensures
        r@ == row_words(rows@, rows@.len() as int),
{
    let mut r: Vec<u32> = Vec::new();
    let mut i: usize = 0;
    assert(r@ =~= Seq::empty());
    while i < rows.len()
        invariant
            i <= rows.len(),
            r@ == row_words(rows@, i as int),
        decreases rows.len() - i,
    {
        let row = rows[i];
        let ghost before = r@;
        r.push(row[0]);
        r.push(row[1]);
        r.push(row[2]);
        r.push(row[3]);
        assert(r@ =~= before + row@);
        i += 1;
    }
    r
}

fn data_class_of(t: &CustomDataType) -> (r: u32)
    ensures
        r == data_class(*t),
{
    match t {
        CustomDataType::Comment => 0,
        CustomDataType::DebugInfo => 1,
        CustomDataType::Opaque => 2,
        CustomDataType::ImmediateConstantBuffer => 3,
        CustomDataType::Other(v) => *v,
    }
}

fn data_words_of(t: &CustomDataType, values: &Vec<[u32; 4]>, raw: &Vec<u32>) -> (r: Vec<u32>)
    ensures
        r@ == data_words(*t, values@, raw@),
{
    match t {
        CustomDataType::ImmediateConstantBuffer => rows_of(values),
        _ => {
            let mut r: Vec<u32> = Vec::new();
            push_words(&mut r, raw.as_slice());
            assert(r@ =~= raw@);
            r
        },
    }
}

fn has_modifiers(k: &InstructionKind) -> (r: bool)
    ensures
        r == takes_modifiers(k.model()),
{
    match k {
        InstructionKind::Generic { .. } => true,
        InstructionKind::HsPhase => true,
        _ => false,
    }
}

/// The words of an instruction.
fn encode_instruction(i: &Instruction) -> (r: Vec<u32>)
    ensures
        r@ == instruction_words(i.model()),
{
    let op: u32 = i.opcode.to_u32() & 0x7FF;
    match &i.kind {
        InstructionKind::CustomData { subtype, values, raw, raw_dword_count: _ } => {
            let d = data_words_of(subtype, values, raw);
            let n: u128 = 2 + d.len() as u128;
            let mut w: Vec<u32> = Vec::new();
            w.push(op | (data_class_of(subtype) << 11));
            w.push(n as u32);
            assert(w@ =~= seq![op | (data_class(*subtype) << 11), (2 + d@.len()) as u32]);
            push_words(&mut w, d.as_slice());
            w
        },
        _ => {
            let m = has_modifiers(&i.kind);
            let extra: Vec<u32> = if m {
                let e = extra_words_of(i);
                chain(&e)
            } else {
                Vec::new()
            };
            let ghost ex = if m {
                chained(extra_words(i.modifiers()))
            } else {
                Seq::empty()
            };
            assert(extra@ =~= ex);
            let body = body_of(&i.kind);
            let n: u128 = 1 + extra.len() as u128 + body.len() as u128;
            let first: u32 = op | (if m {
                modifier_bits_of(i)
            } else {
                control_bits_of(&i.kind)
            }) | (((n as u32) & 0x7F) << 24) | (if extra.len() > 0 {
                0x8000_0000u32
            } else {
                0u32
            });
            let mut rest: Vec<u32> = Vec::new();
            push_words(&mut rest, extra.as_slice());
            assert(rest@ =~= ex);
            push_words(&mut rest, body.as_slice());
            let mut w = one_word(first);
            push_words(&mut w, rest.as_slice());
            w
        },
    }
}

/// The bytecode of a program.
pub fn encode(p: &Program) -> (r: Vec<u8>)
    ensures
        r@ == program_bytes(p.model()),
{
    let ghost is = p.model().instructions;
    let mut body: Vec<u32> = Vec::new();
    let mut i: usize = 0;
    assert(body@ =~= Seq::empty());
    while i < p.instructions.len()
        invariant
            is == instruction_models(p.instructions@),
            i <= p.instructions.len(),
            body@ == instructions_words(is, i as int),
        decreases p.instructions.len() - i,
    {
        assert(is[i as int] == p.instructions@[i as int].model());
        let w = encode_instruction(&p.instructions[i]);
        push_words(&mut body, w.as_slice());
        i += 1;
    }
    assert(is.len() == p.instructions@.len());
    let t = shader_types_table();
    let n: u128 = 2 + body.len() as u128;
    let mut w = one_word(
        (name_code(&t, p.shader_type) << 16) | ((p.major_version & 0xF) << 4) | (p.minor_version
            & 0xF),
    );
    w.push(n as u32);
    assert(w@ =~= seq![
        (code_of(shader_types(), p.shader_type@) << 16) | ((p.major_version & 0xF) << 4) | (
        p.minor_version & 0xF),
        (2 + body@.len()) as u32,
    ]);
    push_words(&mut w, body.as_slice());
    assert(w@ == program_words(p.model()));
    let mut out: Vec<u8> = Vec::new();
    let mut k: usize = 0;
    assert(w@.take(0) =~= Seq::empty());
    while k < w.len()
        invariant
            k <= w.len(),
            out@ == words_bytes(w@.take(k as int)),
        decreases w.len() - k,
    {
        push_u32(&mut out, w[k]);
        k += 1;
        assert(w@.take(k as int).drop_last() =~= w@.take(k as int - 1));
    }
    assert(w@.take(k as int) =~= w@);
    out
}

} // verus!
