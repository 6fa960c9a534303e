//! Reading shader programs from bytecode.

use vstd::prelude::*;

use crate::bytes::{cursor_bytes, cursor_new, cursor_pos, cursor_read_u32, word_at};
use crate::grammar::tables::{
    cb_access, cb_access_table, dimensions, dimensions_table, global_flags, global_flags_table,
    interpolations, interpolations_table, name_of, sampler_modes, sampler_modes_table, shader_types,
    shader_types_table, system_value_name, system_value_text, table_name, table_of, tess_domains,
    tess_domains_table, tess_output_prims, tess_output_prims_table, tess_partitionings,
    tess_partitionings_table,
};
use crate::shex::ir::{
    ComponentSelect, CustomDataType, FlagNames, GsOutputTopology, GsPrimitive, IndexModel, Indices,
    Instruction, InstructionKind, InstructionModel, KindModel, Modifiers, Opcode, Operand,
    OperandIndex, OperandModel, Operands, Program, ProgramModel, RegisterType, ReturnType,
    SmallU32Vec, index_models, instruction_models, lemma_operand_model, no_modifiers,
    operand_models,
};

verus! {

/// What was read and the number of the next word.
pub type Decoded<T> = Option<(T, int)>;

/// Word number `p`, where there is one.
pub open spec fn word(b: Seq<u32>, p: int) -> Option<u32> {
    if 0 <= p < b.len() {
        Some(b[p])
    } else {
        None
    }
}

/// The field of `mask` from bit `shift` on.
pub open spec fn field(w: u32, shift: u32, mask: u32) -> u32 {
    (w >> shift) & mask
}

// ---------------------------------------------------------------------------
// Operands
// ---------------------------------------------------------------------------

/// The component selection in an operand word.
pub open spec fn components_of(w: u32) -> Option<ComponentSelect> {
    let n = field(w, 0, 3);
    let mode = field(w, 2, 3);
    if n == 0 {
        Some(ComponentSelect::ZeroComponent)
    } else if n == 1 {
        Some(ComponentSelect::OneComponent)
    } else if n == 2 && mode == 0 {
        Some(ComponentSelect::Mask(field(w, 4, 0xF) as u8))
    } else if n == 2 && mode == 1 {
        Some(
            ComponentSelect::Swizzle(
                [
                    field(w, 4, 3) as u8,
                    field(w, 6, 3) as u8,
                    field(w, 8, 3) as u8,
                    field(w, 10, 3) as u8,
                ],
            ),
        )
    } else if n == 2 && mode == 2 {
        Some(ComponentSelect::Scalar(field(w, 4, 3) as u8))
    } else {
        None
    }
}

/// How many values an immediate operand with those components has.
pub open spec fn immediate_count(r: RegisterType, c: ComponentSelect) -> int {
    let n = match c {
        ComponentSelect::ZeroComponent => 0int,
        ComponentSelect::OneComponent => 1,
        _ => 4,
    };
    if r == RegisterType::Immediate32 {
        n
    } else if r == RegisterType::Immediate64 {
        2 * n
    } else {
        0
    }
}

/// Whether an operand is negated and whether its absolute value is taken.
pub open spec fn modifier_of(b: Seq<u32>, p: int, extended: bool) -> Decoded<(bool, bool)> {
    if !extended {
        Some(((false, false), p))
    } else {
        match word(b, p) {
            None => None,
            Some(w) => if w == 0x41 {
                Some(((true, false), p + 1))
            } else if w == 0x81 {
                Some(((false, true), p + 1))
            } else if w == 0xC1 {
                Some(((true, true), p + 1))
            } else {
                None
            },
        }
    }
}

/// The operand that begins at word `p`.
pub open spec fn operand_at(b: Seq<u32>, p: int) -> Decoded<OperandModel>
    decreases b.len() - p, 5int,
{
    match word(b, p) {
        None => None,
        Some(w) => match (components_of(w), modifier_of(b, p + 1, field(w, 31, 1) == 1)) {
            (Some(components), Some(((negate, abs), q))) => {
                let reg_type = RegisterType::spec_from_u32(field(w, 12, 0xFF));
                if q <= p || q > b.len() {
                    None
                } else {
                    match indices_at(b, q, w, 0) {
                        None => None,
                        Some((indices, r)) => {
                            let n = immediate_count(reg_type, components);
                            if r < 0 || r + n > b.len() {
                                None
                            } else {
                                Some(
                                    (
                                        OperandModel {
                                            reg_type,
                                            components,
                                            negate,
                                            abs,
                                            indices,
                                            immediate_values: b.subrange(r, r + n),
                                        },
                                        r + n,
                                    ),
                                )
                            }
                        },
                    }
                }
            },
            _ => None,
        },
    }
}

/// The kind of index number `k` of an operand.
pub open spec fn index_kind_of(w: u32, k: int) -> u32 {
    if k == 0 {
        field(w, 22, 7)
    } else if k == 1 {
        field(w, 25, 7)
    } else {
        field(w, 28, 7)
    }
}

/// The indices from number `k` on of an operand with word `w`.
pub open spec fn indices_at(b: Seq<u32>, p: int, w: u32, k: int) -> Decoded<Seq<IndexModel>>
    decreases b.len() - p, 10 - k,
{
    if k < 0 || k >= field(w, 20, 3) || k >= 3 {
        Some((Seq::empty(), p))
    } else {
        match index_at(b, p, index_kind_of(w, k)) {
            None => None,
            Some((ix, q)) => if q <= p || q > b.len() {
                None
            } else {
                match indices_at(b, q, w, k + 1) {
                    None => None,
                    Some((rest, r)) => Some((seq![ix] + rest, r)),
                }
            },
        }
    }
}

/// The index of that kind that begins at word `p`.
pub open spec fn index_at(b: Seq<u32>, p: int, kind: u32) -> Decoded<IndexModel>
    decreases b.len() - p, 6int,
{
    match word(b, p) {
        None => None,
        Some(v) => if kind == 0 {
            Some((IndexModel::Imm32(v), p + 1))
        } else if kind == 1 {
            match word(b, p + 1) {
                Some(lo) => Some(
                    (IndexModel::Imm64(((v as u64) << 32) | (lo as u64)), p + 2),
                ),
                None => None,
            }
        } else if kind == 2 {
            match operand_at(b, p) {
                Some((op, q)) => Some((IndexModel::Relative(Box::new(op)), q)),
                None => None,
            }
        } else if kind == 3 && p + 1 <= b.len() {
            match operand_at(b, p + 1) {
                Some((op, q)) => Some((IndexModel::RelativePlusImm(v, Box::new(op)), q)),
                None => None,
            }
        } else {
            None
        },
    }
}

/// The operands from word `p` to the end.
pub open spec fn operands_from(b: Seq<u32>, p: int) -> Option<Seq<OperandModel>>
    decreases b.len() - p,
{
    if p >= b.len() {
        Some(Seq::empty())
    } else {
        match operand_at(b, p) {
            None => None,
            Some((op, q)) => if q <= p || q > b.len() {
                None
            } else {
                match operands_from(b, q) {
                    Some(rest) => Some(seq![op] + rest),
                    None => None,
                }
            },
        }
    }
}

// ---------------------------------------------------------------------------
// Modifiers
// ---------------------------------------------------------------------------

/// The signed number in the four bits from `shift` on.
pub open spec fn signed_nibble(w: u32, shift: u32) -> i8 {
    let v = field(w, shift, 0xF);
    if v < 8 {
        v as i8
    } else {
        (v - 16) as i8
    }
}

/// The modifiers with what the further words from number `p` on say; the number
/// of the word behind them.
pub open spec fn extras_at(b: Seq<u32>, p: int, more: bool, m: Modifiers) -> Decoded<Modifiers>
    decreases b.len() - p,
{
    if !more {
        Some((m, p))
    } else {
        match word(b, p) {
            None => None,
            Some(w) => {
                let next = field(w, 31, 1) == 1;
                let kind = field(w, 0, 0x3F);
                if kind == 1 {
                    extras_at(
                        b,
                        p + 1,
                        next,
                        Modifiers {
                            tex_offsets: Some(
                                [signed_nibble(w, 9), signed_nibble(w, 13), signed_nibble(w, 17)],
                            ),
                            ..m
                        },
                    )
                } else if kind == 2 {
                    extras_at(
                        b,
                        p + 1,
                        next,
                        Modifiers { resource_dim: Some(w & 0x7FFF_FFFF), ..m },
                    )
                } else if kind == 3 {
                    extras_at(
                        b,
                        p + 1,
                        next,
                        Modifiers { resource_return_type: Some(w & 0x7FFF_FFFF), ..m },
                    )
                } else {
                    None
                }
            },
        }
    }
}

/// The modifiers in the first word of an instruction.
pub open spec fn modifiers_of(op: Opcode, w: u32) -> Modifiers {
    Modifiers {
        saturate: op != Opcode::Sync && field(w, 13, 1) == 1,
        test_nonzero: field(w, 18, 1) == 1,
        precise_mask: field(w, 19, 0xF) as u8,
        resinfo_return_type: if op == Opcode::Resinfo {
            Some(field(w, 11, 3) as u8)
        } else {
            None
        },
        sync_flags: if op == Opcode::Sync {
            field(w, 11, 0xF) as u8
        } else {
            0
        },
        ..no_modifiers()
    }
}

// ---------------------------------------------------------------------------
// Declarations
// ---------------------------------------------------------------------------

/// The names of the global flags from bit `k` on.
pub open spec fn flags_of(w: u32, k: int) -> Seq<Seq<char>>
    decreases 8 - k,
{
    if k < 0 || k >= 8 {
        Seq::empty()
    } else {
        let rest = flags_of(w, k + 1);
        if field(w, (11 + k) as u32, 1) == 1 {
            seq![global_flags()[k].0] + rest
        } else {
            rest
        }
    }
}

/// The four types of a return-type word.
pub open spec fn types_of(w: u32) -> [ReturnType; 4] {
    [
        ReturnType::spec_from_u32(field(w, 0, 0xF)),
        ReturnType::spec_from_u32(field(w, 4, 0xF)),
        ReturnType::spec_from_u32(field(w, 8, 0xF)),
        ReturnType::spec_from_u32(field(w, 12, 0xF)),
    ]
}

/// The primitive with that number.
pub open spec fn primitive_of(v: u32) -> Option<GsPrimitive> {
    if v == 0 {
        Some(GsPrimitive::Undefined)
    } else if v == 1 {
        Some(GsPrimitive::Point)
    } else if v == 2 {
        Some(GsPrimitive::Line)
    } else if v == 3 {
        Some(GsPrimitive::Triangle)
    } else if v == 6 {
        Some(GsPrimitive::LineAdj)
    } else if v == 7 {
        Some(GsPrimitive::TriangleAdj)
    } else if 8 <= v < 64 {
        Some(GsPrimitive::ControlPointPatch((v - 7) as u8))
    } else {
        None
    }
}

/// The topology with that number.
pub open spec fn topology_of(v: u32) -> Option<GsOutputTopology> {
    if v == 0 {
        Some(GsOutputTopology::Undefined)
    } else if v == 1 {
        Some(GsOutputTopology::PointList)
    } else if v == 2 {
        Some(GsOutputTopology::LineList)
    } else if v == 3 {
        Some(GsOutputTopology::LineStrip)
    } else if v == 4 {
        Some(GsOutputTopology::TriangleList)
    } else if v == 5 {
        Some(GsOutputTopology::TriangleStrip)
    } else if v == 10 {
        Some(GsOutputTopology::LineListAdj)
    } else if v == 11 {
        Some(GsOutputTopology::LineStripAdj)
    } else if v == 12 {
        Some(GsOutputTopology::TriangleListAdj)
    } else if v == 13 {
        Some(GsOutputTopology::TriangleStripAdj)
    } else {
        None
    }
}

/// Whether an input or output declaration with that opcode names a system value.
pub open spec fn names_system_value(op: Opcode) -> bool {
    op == Opcode::DclInputSgv || op == Opcode::DclInputSiv || op == Opcode::DclInputPsSgv || op
        == Opcode::DclInputPsSiv || op == Opcode::DclOutputSgv || op == Opcode::DclOutputSiv
}

/// Whether an input declaration with that opcode names an interpolation mode.
pub open spec fn names_interpolation(op: Opcode) -> bool {
    op == Opcode::DclInputPs || op == Opcode::DclInputPsSgv || op == Opcode::DclInputPsSiv
}

/// Whether the opcode declares an input.
pub open spec fn is_input(op: Opcode) -> bool {
    op == Opcode::DclInput || op == Opcode::DclInputSgv || op == Opcode::DclInputSiv
        || names_interpolation(op)
}

/// Whether the opcode declares an output.
pub open spec fn is_output(op: Opcode) -> bool {
    op == Opcode::DclOutput || op == Opcode::DclOutputSgv || op == Opcode::DclOutputSiv
}

/// The system value in word `p`, where the declaration names one.
pub open spec fn system_value_at(op: Opcode, b: Seq<u32>, p: int) -> Option<Option<Seq<char>>> {
    if names_system_value(op) {
        match word(b, p) {
            Some(v) => Some(Some(system_value_text(v))),
            None => None,
        }
    } else {
        Some(None)
    }
}

/// The interpolation mode in the first word, where the declaration names one.
pub open spec fn interpolation_of(op: Opcode, w: u32) -> Option<Option<Seq<char>>> {
    if names_interpolation(op) {
        match table_name(interpolations(), field(w, 11, 0xF)) {
            Some(n) => Some(Some(n)),
            None => None,
        }
    } else {
        Some(None)
    }
}

/// An input or output declaration.
pub open spec fn port_kind(op: Opcode, w: u32, b: Seq<u32>) -> Option<KindModel> {
    match operand_at(b, 1) {
        None => None,
        Some((o, p)) => match (system_value_at(op, b, p), interpolation_of(op, w)) {
            (Some(system_value), Some(interpolation)) => if is_input(op) {
                Some(
                    KindModel::DclInput { interpolation, system_value, operands: seq![o] },
                )
            } else {
                Some(KindModel::DclOutput { system_value, operands: seq![o] })
            },
            _ => None,
        },
    }
}

/// Whether the opcode declares one operand, with what follows it or stands in
/// the first word.
pub open spec fn is_resource_decl(op: Opcode) -> bool {
    op == Opcode::DclResource || op == Opcode::DclUnorderedAccessViewTyped || op
        == Opcode::DclUnorderedAccessViewRaw || op == Opcode::DclUnorderedAccessViewStructured
        || op == Opcode::DclResourceRaw || op == Opcode::DclResourceStructured || op
        == Opcode::DclSampler || op == Opcode::DclConstantBuffer || op == Opcode::DclIndexRange
}

/// A declaration of one operand.
pub open spec fn resource_kind(op: Opcode, w: u32, b: Seq<u32>) -> Option<KindModel> {
    match operand_at(b, 1) {
        None => None,
        Some((o, p)) => {
            let operands = seq![o];
            match op {
                Opcode::DclResource => match (
                    table_name(dimensions(), field(w, 11, 0x1F)),
                    word(b, p),
                ) {
                    (Some(dimension), Some(t)) => Some(
                        KindModel::DclResource {
                            dimension,
                            sample_count: field(w, 16, 0x7F),
                            return_type: types_of(t),
                            operands,
                        },
                    ),
                    _ => None,
                },
                Opcode::DclUnorderedAccessViewTyped => match (
                    table_name(dimensions(), field(w, 11, 0x1F)),
                    word(b, p),
                ) {
                    (Some(dimension), Some(t)) => Some(
                        KindModel::DclUavTyped {
                            dimension,
                            flags: field(w, 16, 0xFF),
                            return_type: types_of(t),
                            operands,
                        },
                    ),
                    _ => None,
                },
                Opcode::DclUnorderedAccessViewRaw => Some(
                    KindModel::DclUavRaw { flags: field(w, 16, 0xFF), operands },
                ),
                Opcode::DclUnorderedAccessViewStructured => match word(b, p) {
                    Some(stride) => Some(
                        KindModel::DclUavStructured { flags: field(w, 16, 0xFF), stride, operands },
                    ),
                    None => None,
                },
                Opcode::DclResourceRaw => Some(KindModel::DclResourceRaw { operands }),
                Opcode::DclResourceStructured => match word(b, p) {
                    Some(stride) => Some(KindModel::DclResourceStructured { stride, operands }),
                    None => None,
                },
                Opcode::DclSampler => match table_name(sampler_modes(), field(w, 11, 0xF)) {
                    Some(mode) => Some(KindModel::DclSampler { mode, operands }),
                    None => None,
                },
                Opcode::DclConstantBuffer => match table_name(cb_access(), field(w, 11, 1)) {
                    Some(access) => Some(KindModel::DclConstantBuffer { access, operands }),
                    None => None,
                },
                _ => match word(b, p) {
                    Some(count) => Some(KindModel::DclIndexRange { operands, count }),
                    None => None,
                },
            }
        },
    }
}

/// The words from number `p` on, `n` of them.
pub open spec fn words_at(b: Seq<u32>, p: int, n: int) -> Option<Seq<u32>> {
    if 0 <= n && p + n <= b.len() {
        Some(b.subrange(p, p + n))
    } else {
        None
    }
}

/// Whether the opcode declares by numbers and names alone.
pub open spec fn is_plain_decl(op: Opcode) -> bool {
    op == Opcode::DclGlobalFlags || op == Opcode::DclTemps || op == Opcode::DclIndexableTemp || op
        == Opcode::DclGsInputPrimitive || op == Opcode::DclGsOutputPrimitiveTopology || op
        == Opcode::DclMaxOutputVertexCount || op == Opcode::DclGsInstanceCount || op
        == Opcode::DclOutputControlPointCount || op == Opcode::DclInputControlPointCount || op
        == Opcode::DclTessDomain || op == Opcode::DclTessPartitioning || op
        == Opcode::DclTessOutputPrimitive || op == Opcode::DclHsMaxTessFactor || op
        == Opcode::DclHsForkPhaseInstanceCount || op == Opcode::DclHsJoinPhaseInstanceCount || op
        == Opcode::DclThreadGroup || op == Opcode::DclFunctionBody || op == Opcode::DclFunctionTable
        || op == Opcode::DclInterface
}

/// A declaration of one number behind the first word.
pub open spec fn number_kind(op: Opcode, n: u32) -> KindModel {
    match op {
        Opcode::DclTemps => KindModel::DclTemps { count: n },
        Opcode::DclMaxOutputVertexCount => KindModel::DclMaxOutputVertexCount { count: n },
        Opcode::DclGsInstanceCount => KindModel::DclGsInstanceCount { count: n },
        Opcode::DclFunctionBody => KindModel::DclFunctionBody { index: n },
        Opcode::DclHsMaxTessFactor => KindModel::DclHsMaxTessFactor { value: n },
        _ => KindModel::DclHsForkPhaseInstanceCount { count: n },
    }
}

/// A declaration of numbers and names.
pub open spec fn plain_kind(op: Opcode, w: u32, b: Seq<u32>) -> Option<KindModel> {
    match op {
        Opcode::DclGlobalFlags => Some(KindModel::DclGlobalFlags { flags: flags_of(w, 0) }),
        Opcode::DclIndexableTemp => match (word(b, 1), word(b, 2), word(b, 3)) {
            (Some(reg), Some(size), Some(components)) => Some(
                KindModel::DclIndexableTemp { reg, size, components },
            ),
            _ => None,
        },
        Opcode::DclThreadGroup => match (word(b, 1), word(b, 2), word(b, 3)) {
            (Some(x), Some(y), Some(z)) => Some(KindModel::DclThreadGroup { x, y, z }),
            _ => None,
        },
        Opcode::DclGsInputPrimitive => match primitive_of(field(w, 11, 0x3F)) {
            Some(primitive) => Some(KindModel::DclGsInputPrimitive { primitive }),
            None => None,
        },
        Opcode::DclGsOutputPrimitiveTopology => match topology_of(field(w, 11, 0x7F)) {
            Some(topology) => Some(KindModel::DclGsOutputTopology { topology }),
            None => None,
        },
        Opcode::DclOutputControlPointCount => Some(
            KindModel::DclOutputControlPointCount { count: field(w, 11, 0x3F) },
        ),
        Opcode::DclInputControlPointCount => Some(
            KindModel::DclInputControlPointCount { count: field(w, 11, 0x3F) },
        ),
        Opcode::DclTessDomain => match table_name(tess_domains(), field(w, 11, 3)) {
            Some(domain) => Some(KindModel::DclTessDomain { domain }),
            None => None,
        },
        Opcode::DclTessPartitioning => match table_name(tess_partitionings(), field(w, 11, 7)) {
            Some(partitioning) => Some(KindModel::DclTessPartitioning { partitioning }),
            None => None,
        },
        Opcode::DclTessOutputPrimitive => match table_name(
            tess_output_prims(),
            field(w, 11, 7),
        ) {
            Some(primitive) => Some(KindModel::DclTessOutputPrimitive { primitive }),
            None => None,
        },
        Opcode::DclFunctionTable => match (word(b, 1), word(b, 2)) {
            (Some(table_index), Some(n)) => match words_at(b, 3, n as int) {
                Some(body_indices) => Some(
                    KindModel::DclFunctionTable { table_index, body_indices },
                ),
                None => None,
            },
            _ => None,
        },
        Opcode::DclInterface => match (word(b, 1), word(b, 2), word(b, 3)) {
            (Some(interface_index), Some(num_call_sites), Some(n)) => match words_at(
                b,
                4,
                field(n, 0, 0xFFFF) as int,
            ) {
                Some(table_indices) => Some(
                    KindModel::DclInterface { interface_index, num_call_sites, table_indices },
                ),
                None => None,
            },
            _ => None,
        },
        _ => match word(b, 1) {
            Some(n) => Some(number_kind(op, n)),
            None => None,
        },
    }
}

// ---------------------------------------------------------------------------
// Data blocks
// ---------------------------------------------------------------------------

/// The kind of a data block.
pub open spec fn data_type_of(v: u32) -> CustomDataType {
    if v == 0 {
        CustomDataType::Comment
    } else if v == 1 {
        CustomDataType::DebugInfo
    } else if v == 2 {
        CustomDataType::Opaque
    } else if v == 3 {
        CustomDataType::ImmediateConstantBuffer
    } else {
        CustomDataType::Other(v)
    }
}

/// The rows of four words from number `p` on.
pub open spec fn rows_from(b: Seq<u32>, p: int) -> Seq<[u32; 4]>
    decreases b.len() - p,
{
    if p + 4 > b.len() {
        Seq::empty()
    } else {
        seq![[b[p], b[p + 1], b[p + 2], b[p + 3]]] + rows_from(b, p + 4)
    }
}

/// A data block, which begins with two words of its own.
pub open spec fn data_kind(w: u32, b: Seq<u32>) -> Option<KindModel> {
    let t = data_type_of(field(w, 11, 0x1F_FFFF));
    if b.len() < 2 {
        None
    } else if t is ImmediateConstantBuffer {
        if (b.len() - 2) % 4 != 0 {
            None
        } else {
            Some(
                KindModel::CustomData {
                    subtype: t,
                    values: rows_from(b, 2),
                    raw: Seq::empty(),
                    raw_dword_count: b.len(),
                },
            )
        }
    } else {
        Some(
            KindModel::CustomData {
                subtype: t,
                values: Seq::empty(),
                raw: b.skip(2),
                raw_dword_count: b.len(),
            },
        )
    }
}

// ---------------------------------------------------------------------------
// Instructions
// ---------------------------------------------------------------------------

/// Whether the opcode begins a phase of a hull shader.
pub open spec fn is_phase(op: Opcode) -> bool {
    op == Opcode::HsDecls || op == Opcode::HsControlPointPhase || op == Opcode::HsForkPhase || op
        == Opcode::HsJoinPhase
}

/// An instruction without modifiers.
pub open spec fn bare(opcode: Opcode, kind: Option<KindModel>) -> Option<InstructionModel> {
    match kind {
        Some(kind) => Some(InstructionModel { opcode, mods: no_modifiers(), kind }),
        None => None,
    }
}

/// The instruction of the words `b`.
pub open spec fn instruction_of(b: Seq<u32>) -> Option<InstructionModel> {
    if b.len() == 0 {
        None
    } else {
        let w = b[0];
        let op = Opcode::spec_from_u32(field(w, 0, 0x7FF));
        if op == Opcode::CustomData {
            bare(op, data_kind(w, b))
        } else if is_input(op) || is_output(op) {
            bare(op, port_kind(op, w, b))
        } else if is_resource_decl(op) {
            bare(op, resource_kind(op, w, b))
        } else if is_plain_decl(op) {
            bare(op, plain_kind(op, w, b))
        } else {
            match extras_at(b, 1, field(w, 31, 1) == 1, modifiers_of(op, w)) {
                None => None,
                Some((mods, p)) => if is_phase(op) {
                    Some(InstructionModel { opcode: op, mods, kind: KindModel::HsPhase })
                } else {
                    match operands_from(b, p) {
                        Some(operands) => Some(
                            InstructionModel {
                                opcode: op,
                                mods,
                                kind: KindModel::Generic { operands },
                            },
                        ),
                        None => None,
                    }
                },
            }
        }
    }
}

/// The number of words of the instruction that begins at word `p`.
pub open spec fn instruction_len(ws: Seq<u32>, p: int) -> int {
    let w = ws[p];
    if Opcode::spec_from_u32(field(w, 0, 0x7FF)) == Opcode::CustomData {
        if p + 1 < ws.len() {
            ws[p + 1] as int
        } else {
            0
        }
    } else {
        field(w, 24, 0x7F) as int
    }
}

/// The instructions from word `p` to the end.
pub open spec fn instructions_from(ws: Seq<u32>, p: int) -> Option<Seq<InstructionModel>>
    decreases ws.len() - p,
{
    if p >= ws.len() {
        Some(Seq::empty())
    } else {
        let n = instruction_len(ws, p);
        if n <= 0 || p + n > ws.len() {
            None
        } else {
            match (instruction_of(ws.subrange(p, p + n)), instructions_from(ws, p + n)) {
                (Some(i), Some(rest)) => Some(seq![i] + rest),
                _ => None,
            }
        }
    }
}

/// The words that bytecode counts as its own.
pub open spec fn counted_words(d: Seq<u8>) -> Option<Seq<u32>> {
    if d.len() < 8 || word_at(d, 4) < 2 || 4 * word_at(d, 4) > d.len() {
        None
    } else {
        Some(Seq::new(word_at(d, 4) as nat, |i: int| word_at(d, 4 * i)))
    }
}

/// The program in bytecode from a chunk with that code.
pub open spec fn program_of(d: Seq<u8>, fourcc: Seq<u8>) -> Option<ProgramModel> {
    match counted_words(d) {
        None => None,
        Some(ws) => match (
            table_name(shader_types(), field(ws[0], 16, 0xFFFF)),
            instructions_from(ws, 2),
        ) {
            (Some(shader_type), Some(instructions)) => Some(
                ProgramModel {
                    shader_type,
                    major_version: field(ws[0], 4, 0xF),
                    minor_version: field(ws[0], 0, 0xF),
                    instructions,
                    fourcc,
                },
            ),
            _ => None,
        },
    }
}

// ---------------------------------------------------------------------------
// Reading
// ---------------------------------------------------------------------------

fn get(b: &[u32], p: usize) -> (r: Option<u32>)
    ensures
        r == word(b@, p as int),
{
    if p < b.len() {
        Some(b[p])
    } else {
        None
    }
}

fn bits(w: u32, shift: u32, mask: u32) -> (r: u32)
    requires
        shift < 32,
    ensures
        r == field(w, shift, mask),
{
    (w >> shift) & mask
}

fn decode_components(w: u32) -> (r: Option<ComponentSelect>)
    ensures
        r == components_of(w),
{
    let n: u32 = bits(w, 0, 3);
    let mode: u32 = bits(w, 2, 3);
    if n == 0 {
        Some(ComponentSelect::ZeroComponent)
    } else if n == 1 {
        Some(ComponentSelect::OneComponent)
    } else if n == 2 && mode == 0 {
        Some(ComponentSelect::Mask(bits(w, 4, 0xF) as u8))
    } else if n == 2 && mode == 1 {
        Some(
            ComponentSelect::Swizzle(
                [
                    bits(w, 4, 3) as u8,
                    bits(w, 6, 3) as u8,
                    bits(w, 8, 3) as u8,
                    bits(w, 10, 3) as u8,
                ],
            ),
        )
    } else if n == 2 && mode == 2 {
        Some(ComponentSelect::Scalar(bits(w, 4, 3) as u8))
    } else {
        None
    }
}

fn value_count(r: RegisterType, c: &ComponentSelect) -> (n: usize)
    ensures
        n == immediate_count(r, *c),
        n <= 8,
{
    let n: usize = match c {
        ComponentSelect::ZeroComponent => 0,
        ComponentSelect::OneComponent => 1,
        _ => 4,
    };
    if r == RegisterType::Immediate32 {
        n
    } else if r == RegisterType::Immediate64 {
        2 * n
    } else {
        0
    }
}

fn decode_modifier(b: &[u32], p: usize, extended: bool) -> (r: Option<((bool, bool), usize)>)
    requires
        p <= b.len(),
    ensures
        match r {
            Some((m, q)) => modifier_of(b@, p as int, extended) == Some((m, q as int)) && p <= q
                <= b.len(),
            None => modifier_of(b@, p as int, extended) is None,
        },
{
    if !extended {
        return Some(((false, false), p));
    }
    match get(b, p) {
        None => None,
        Some(w) => {
            if w == 0x41 {
                Some(((true, false), p + 1))
            } else if w == 0x81 {
                Some(((false, true), p + 1))
            } else if w == 0xC1 {
                Some(((true, true), p + 1))
            } else {
                None
            }
        },
    }
}

/// The operand that begins at word `p`.
fn decode_operand(b: &[u32], p: usize) -> (r: Option<(Operand, usize)>)
    ensures
        match r {
            Some((op, q)) => operand_at(b@, p as int) == Some((op.model(), q as int)) && p < q
                <= b.len(),
            None => operand_at(b@, p as int) is None,
        },
    decreases b@.len() - p, 5int,
{
    let w: u32 = match get(b, p) {
        Some(w) => w,
        None => {
            return None;
        },
    };
    assert(p < b.len());
    let components = match decode_components(w) {
        Some(c) => c,
        None => {
            return None;
        },
    };
    let ((negate, abs), q) = match decode_modifier(b, p + 1, bits(w, 31, 1) == 1) {
        Some(m) => m,
        None => {
            return None;
        },
    };
    let reg_type = RegisterType::from_u32(bits(w, 12, 0xFF));
    match decode_indices(b, q, w, 0) {
        None => None,
        Some((indices, r)) => {
            let n: usize = value_count(reg_type, &components);
            if b.len() - r < n {
                return None;
            }
            let immediate_values = SmallU32Vec::from_words(
                vstd::slice::slice_subrange(b, r, r + n),
            );
            let op = Operand { reg_type, components, negate, abs, indices, immediate_values };
            proof {
                lemma_operand_model(op);
            }
            Some((op, r + n))
        },
    }
}

fn kind_of_index(w: u32, k: u32) -> (r: u32)
    requires
        k < 3,
    ensures
        r == index_kind_of(w, k as int),
{
    if k == 0 {
        bits(w, 22, 7)
    } else if k == 1 {
        bits(w, 25, 7)
    } else {
        bits(w, 28, 7)
    }
}

/// The indices from number `k` on of an operand with word `w`.
fn decode_indices(b: &[u32], p: usize, w: u32, k: u32) -> (r: Option<(Indices, usize)>)
    requires
        k <= 3,
        p <= b.len(),
    ensures
        match r {
            Some((v, q)) => indices_at(b@, p as int, w, k as int) == Some(
                (index_models(v@), q as int),
            ) && p <= q <= b.len(),
            None => indices_at(b@, p as int, w, k as int) is None,
        },
    decreases b@.len() - p, 10 - k,
{
    if k >= bits(w, 20, 3) || k >= 3 {
        let v: Indices = Vec::new();
        assert(index_models(v@) =~= Seq::empty());
        return Some((v, p));
    }
    match decode_index(b, p, kind_of_index(w, k)) {
        None => None,
        Some((ix, q)) => match decode_indices(b, q, w, k + 1) {
            None => None,
            Some((rest, r)) => {
                let mut all: Indices = Vec::new();
                all.push(ix);
                let mut rest = rest;
                let ghost tail = rest@;
                all.append(&mut rest);
                proof {
                    assert(index_models(all@) =~= seq![ix.model()] + index_models(tail));
                }
                Some((all, r))
            },
        },
    }
}

/// The index of that kind that begins at word `p`.
fn decode_index(b: &[u32], p: usize, kind: u32) -> (r: Option<(OperandIndex, usize)>)
    ensures
        match r {
            Some((ix, q)) => index_at(b@, p as int, kind) == Some((ix.model(), q as int)) && p < q
                <= b.len(),
            None => index_at(b@, p as int, kind) is None,
        },
    decreases b@.len() - p, 6int,
{
    let v: u32 = match get(b, p) {
        Some(v) => v,
        None => {
            return None;
        },
    };
    assert(p < b.len());
    if kind == 0 {
        Some((OperandIndex::Imm32(v), p + 1))
    } else if kind == 1 {
        match get(b, p + 1) {
            Some(lo) => Some((OperandIndex::Imm64(((v as u64) << 32) | (lo as u64)), p + 2)),
            None => None,
        }
    } else if kind == 2 {
        match decode_operand(b, p) {
            Some((op, q)) => Some((OperandIndex::Relative(Box::new(op)), q)),
            None => None,
        }
    } else if kind == 3 {
        match decode_operand(b, p + 1) {
            Some((op, q)) => Some((OperandIndex::RelativePlusImm(v, Box::new(op)), q)),
            None => None,
        }
    } else {
        None
    }
}

/// The operands from word `p` to the end.
fn decode_operands(b: &[u32], p: usize) -> (r: Option<Operands>)
    ensures
        match r {
            Some(v) => operands_from(b@, p as int) == Some(operand_models(v@)),
            None => operands_from(b@, p as int) is None,
        },
{
    let mut ops = Operands::new();
    let mut at: usize = p;
    assert(operand_models(ops@) =~= Seq::empty());
    proof {
        match operands_from(b@, p as int) {
            Some(all) => {
                assert(Seq::<OperandModel>::empty() + all =~= all);
            },
            None => {},
        }
    }
    while at < b.len()
        invariant
            match operands_from(b@, at as int) {
                Some(more) => operands_from(b@, p as int) == Some(operand_models(ops@) + more),
                None => operands_from(b@, p as int) is None,
            },
        decreases b.len() - at,
    {
        match decode_operand(b, at) {
            None => {
                return None;
            },
            Some((op, q)) => {
                let ghost before = ops@;
                ops.push(op);
                proof {
                    assert(operand_models(ops@) =~= operand_models(before).push(op.model()));
                    match operands_from(b@, q as int) {
                        Some(more) => {
                            assert(operand_models(before) + (seq![op.model()] + more)
                                =~= operand_models(ops@) + more);
                        },
                        None => {},
                    }
                }
                at = q;
            },
        }
    }
    assert(operand_models(ops@) + Seq::<OperandModel>::empty() =~= operand_models(ops@));
    Some(ops)
}

fn nibble_at(w: u32, shift: u32) -> (r: i8)
    requires
        shift < 32,
    ensures
        r == signed_nibble(w, shift),
{
    let v: u32 = bits(w, shift, 0xF);
    assert((w >> shift) & 0xF <= 0xF) by (bit_vector);
    if v < 8 {
        v as i8
    } else {
        (v as i32 - 16) as i8
    }
}

/// Read the further words of an instruction's modifiers; the number of the word
/// behind them.
fn decode_extras(i: &mut Instruction, b: &[u32], more: bool) -> (r: Option<usize>)
    requires
        b@.len() >= 1,
    ensures
        match r {
            Some(q) => extras_at(b@, 1, more, old(i).modifiers()) == Some(
                (final(i).modifiers(), q as int),
            ) && q <= b.len(),
            None => extras_at(b@, 1, more, old(i).modifiers()) is None,
        },
        final(i).opcode == old(i).opcode,
        final(i).kind == old(i).kind,
{
    let mut p: usize = 1;
    let mut further = more;
    while further
        invariant
            1 <= p <= b.len(),
            extras_at(b@, p as int, further, i.modifiers()) == extras_at(
                b@,
                1,
                more,
                old(i).modifiers(),
            ),
            i.opcode == old(i).opcode,
            i.kind == old(i).kind,
        decreases b.len() - p + (if further {
            1int
        } else {
            0
        }),
    {
        let w: u32 = match get(b, p) {
            Some(w) => w,
            None => {
                return None;
            },
        };
        let kind: u32 = bits(w, 0, 0x3F);
        if kind == 1 {
            i.tex_offsets = Some([nibble_at(w, 9), nibble_at(w, 13), nibble_at(w, 17)]);
        } else if kind == 2 {
            i.resource_dim = Some(w & 0x7FFF_FFFF);
        } else if kind == 3 {
            i.resource_return_type = Some(w & 0x7FFF_FFFF);
        } else {
            return None;
        }
        further = bits(w, 31, 1) == 1;
        p += 1;
    }
    Some(p)
}

/// The instruction with that opcode, the modifiers in its first word, and what
/// it holds.
fn with_modifiers(op: Opcode, w: u32, kind: InstructionKind) -> (r: Instruction)
    ensures
        r.opcode == op,
        r.modifiers() == modifiers_of(op, w),
        r.kind == kind,
{
    Instruction {
        opcode: op,
        saturate: op != Opcode::Sync && bits(w, 13, 1) == 1,
        test_nonzero: bits(w, 18, 1) == 1,
        precise_mask: bits(w, 19, 0xF) as u8,
        resinfo_return_type: if op == Opcode::Resinfo {
            Some(bits(w, 11, 3) as u8)
        } else {
            None
        },
        sync_flags: if op == Opcode::Sync {
            bits(w, 11, 0xF) as u8
        } else {
            0
        },
        tex_offsets: None,
        resource_dim: None,
        resource_return_type: None,
        kind,
    }
}

fn without_modifiers(op: Opcode, kind: InstructionKind) -> (r: Instruction)
    ensures
        r.model() == (InstructionModel {
            opcode: op,
            mods: no_modifiers(),
            kind: kind.model(),
        }),
{
    Instruction {
        opcode: op,
        saturate: false,
        test_nonzero: false,
        precise_mask: 0,
        resinfo_return_type: None,
        sync_flags: 0,
        tex_offsets: None,
        resource_dim: None,
        resource_return_type: None,
        kind,
    }
}

fn decode_flags(w: u32) -> (r: FlagNames)
    ensures
        r@ == flags_of(w, 0),
{
    let t = global_flags_table();
    let mut flags = FlagNames::new();
    let mut k: u32 = 0;
    assert(flags@ =~= Seq::empty());
    assert(Seq::<Seq<char>>::empty() + flags_of(w, 0) =~= flags_of(w, 0));
    while k < 8
        invariant
            k <= 8,
            table_of(t@) == global_flags(),
            flags@ + flags_of(w, k as int) == flags_of(w, 0),
        decreases 8 - k,
    {
        let ghost before = flags@;
        let ghost rest = flags_of(w, k as int + 1);
        assert(table_of(t@)[k as int].0 == t@[k as int].0@);
        if bits(w, 11 + k, 1) == 1 {
            let name = t[k as usize].0;
            flags.push(name);
            proof {
                assert(flags@ =~= before.push(name@));
                assert(before + (seq![name@] + rest) =~= flags@ + rest);
            }
        }
        k += 1;
    }
    assert(flags@ + Seq::<Seq<char>>::empty() =~= flags@);
    flags
}

fn decode_types(w: u32) -> (r: [ReturnType; 4])
    ensures
        r == types_of(w),
{
    [
        ReturnType::from_u32(bits(w, 0, 0xF)),
        ReturnType::from_u32(bits(w, 4, 0xF)),
        ReturnType::from_u32(bits(w, 8, 0xF)),
        ReturnType::from_u32(bits(w, 12, 0xF)),
    ]
}

fn decode_primitive(v: u32) -> (r: Option<GsPrimitive>)
    ensures
        r == primitive_of(v),
{
    match v {
        0 => Some(GsPrimitive::Undefined),
        1 => Some(GsPrimitive::Point),
        2 => Some(GsPrimitive::Line),
        3 => Some(GsPrimitive::Triangle),
        6 => Some(GsPrimitive::LineAdj),
        7 => Some(GsPrimitive::TriangleAdj),
        _ => {
            if 8 <= v && v < 64 {
                Some(GsPrimitive::ControlPointPatch((v - 7) as u8))
            } else {
                None
            }
        },
    }
}

fn decode_topology(v: u32) -> (r: Option<GsOutputTopology>)
    ensures
        r == topology_of(v),
{
    match v {
        0 => Some(GsOutputTopology::Undefined),
        1 => Some(GsOutputTopology::PointList),
        2 => Some(GsOutputTopology::LineList),
        3 => Some(GsOutputTopology::LineStrip),
        4 => Some(GsOutputTopology::TriangleList),
        5 => Some(GsOutputTopology::TriangleStrip),
        10 => Some(GsOutputTopology::LineListAdj),
        11 => Some(GsOutputTopology::LineStripAdj),
        12 => Some(GsOutputTopology::TriangleListAdj),
        13 => Some(GsOutputTopology::TriangleStripAdj),
        _ => None,
    }
}

fn with_system_value(op: Opcode) -> (r: bool)
    ensures
        r == names_system_value(op),
{
    op == Opcode::DclInputSgv || op == Opcode::DclInputSiv || op == Opcode::DclInputPsSgv || op
        == Opcode::DclInputPsSiv || op == Opcode::DclOutputSgv || op == Opcode::DclOutputSiv
}

fn with_interpolation(op: Opcode) -> (r: bool)
    ensures
        r == names_interpolation(op),
{
    op == Opcode::DclInputPs || op == Opcode::DclInputPsSgv || op == Opcode::DclInputPsSiv
}

fn input_opcode(op: Opcode) -> (r: bool)
    ensures
        r == is_input(op),
{
    op == Opcode::DclInput || op == Opcode::DclInputSgv || op == Opcode::DclInputSiv
        || with_interpolation(op)
}

fn output_opcode(op: Opcode) -> (r: bool)
    ensures
        r == is_output(op),
{
    op == Opcode::DclOutput || op == Opcode::DclOutputSgv || op == Opcode::DclOutputSiv
}

/// A list of one operand.
fn single(op: Operand) -> (r: Operands)
    ensures
        operand_models(r@) == seq![op.model()],
{
    let mut v = Operands::new();
    v.push(op);
    assert(operand_models(v@) =~= seq![op.model()]);
    v
}

fn decode_port(op: Opcode, w: u32, b: &[u32]) -> (r: Option<InstructionKind>)
    ensures
        match r {
            Some(k) => port_kind(op, w, b@) == Some(k.model()),
            None => port_kind(op, w, b@) is None,
        },
{
    let (o, p) = match decode_operand(b, 1) {
        Some(x) => x,
        None => {
            return None;
        },
    };
    let system_value = if with_system_value(op) {
        match get(b, p) {
            Some(v) => Some(system_value_name(v)),
            None => {
                return None;
            },
        }
    } else {
        None
    };
    let interpolation = if with_interpolation(op) {
        let t = interpolations_table();
        match name_of(&t, bits(w, 11, 0xF)) {
            Some(n) => Some(n),
            None => {
                return None;
            },
        }
    } else {
        None
    };
    if input_opcode(op) {
        Some(InstructionKind::DclInput { interpolation, system_value, operands: single(o) })
    } else {
        Some(InstructionKind::DclOutput { system_value, operands: single(o) })
    }
}

fn resource_opcode(op: Opcode) -> (r: bool)
    ensures
        r == is_resource_decl(op),
{
    op == Opcode::DclResource || op == Opcode::DclUnorderedAccessViewTyped || op
        == Opcode::DclUnorderedAccessViewRaw || op == Opcode::DclUnorderedAccessViewStructured
        || op == Opcode::DclResourceRaw || op == Opcode::DclResourceStructured || op
        == Opcode::DclSampler || op == Opcode::DclConstantBuffer || op == Opcode::DclIndexRange
}

fn decode_resource(op: Opcode, w: u32, b: &[u32]) -> (r: Option<InstructionKind>)
    ensures
        match r {
            Some(k) => resource_kind(op, w, b@) == Some(k.model()),
            None => resource_kind(op, w, b@) is None,
        },
{
    let (o, p) = match decode_operand(b, 1) {
        Some(x) => x,
        None => {
            return None;
        },
    };
    let next = get(b, p);
    let operands = single(o);
    match op {
        Opcode::DclResource => {
            let t = dimensions_table();
            match (name_of(&t, bits(w, 11, 0x1F)), next) {
                (Some(dimension), Some(v)) => Some(
                    InstructionKind::DclResource {
                        dimension,
                        sample_count: bits(w, 16, 0x7F),
                        return_type: decode_types(v),
                        operands,
                    },
                ),
                _ => None,
            }
        },
        Opcode::DclUnorderedAccessViewTyped => {
            let t = dimensions_table();
            match (name_of(&t, bits(w, 11, 0x1F)), next) {
                (Some(dimension), Some(v)) => Some(
                    InstructionKind::DclUavTyped {
                        dimension,
                        flags: bits(w, 16, 0xFF),
                        return_type: decode_types(v),
                        operands,
                    },
                ),
                _ => None,
            }
        },
        Opcode::DclUnorderedAccessViewRaw => Some(
            InstructionKind::DclUavRaw { flags: bits(w, 16, 0xFF), operands },
        ),
        Opcode::DclUnorderedAccessViewStructured => match next {
            Some(stride) => Some(
                InstructionKind::DclUavStructured { flags: bits(w, 16, 0xFF), stride, operands },
            ),
            None => None,
        },
        Opcode::DclResourceRaw => Some(InstructionKind::DclResourceRaw { operands }),
        Opcode::DclResourceStructured => match next {
            Some(stride) => Some(InstructionKind::DclResourceStructured { stride, operands }),
            None => None,
        },
        Opcode::DclSampler => {
            let t = sampler_modes_table();
            match name_of(&t, bits(w, 11, 0xF)) {
                Some(mode) => Some(InstructionKind::DclSampler { mode, operands }),
                None => None,
            }
        },
        Opcode::DclConstantBuffer => {
            let t = cb_access_table();
            match name_of(&t, bits(w, 11, 1)) {
                Some(access) => Some(InstructionKind::DclConstantBuffer { access, operands }),
                None => None,
            }
        },
        _ => match next {
            Some(count) => Some(InstructionKind::DclIndexRange { operands, count }),
            None => None,
        },
    }
}

fn list_at(b: &[u32], p: usize, n: u32) -> (r: Option<SmallU32Vec>)
    ensures
        match r {
            Some(v) => words_at(b@, p as int, n as int) == Some(v@),
            None => words_at(b@, p as int, n as int) is None,
        },
{
    if p <= b.len() && n as u64 <= (b.len() - p) as u64 {
        Some(SmallU32Vec::from_words(vstd::slice::slice_subrange(b, p, p + n as usize)))
    } else {
        None
    }
}

fn plain_opcode(op: Opcode) -> (r: bool)
    ensures
        r == is_plain_decl(op),
{
    op == Opcode::DclGlobalFlags || op == Opcode::DclTemps || op == Opcode::DclIndexableTemp || op
        == Opcode::DclGsInputPrimitive || op == Opcode::DclGsOutputPrimitiveTopology || op
        == Opcode::DclMaxOutputVertexCount || op == Opcode::DclGsInstanceCount || op
        == Opcode::DclOutputControlPointCount || op == Opcode::DclInputControlPointCount || op
        == Opcode::DclTessDomain || op == Opcode::DclTessPartitioning || op
        == Opcode::DclTessOutputPrimitive || op == Opcode::DclHsMaxTessFactor || op
        == Opcode::DclHsForkPhaseInstanceCount || op == Opcode::DclHsJoinPhaseInstanceCount || op
        == Opcode::DclThreadGroup || op == Opcode::DclFunctionBody || op == Opcode::DclFunctionTable
        || op == Opcode::DclInterface
}

fn decode_number(op: Opcode, n: u32) -> (r: InstructionKind)
    ensures
        r.model() == number_kind(op, n),
{
    match op {
        Opcode::DclTemps => InstructionKind::DclTemps { count: n },
        Opcode::DclMaxOutputVertexCount => InstructionKind::DclMaxOutputVertexCount { count: n },
        Opcode::DclGsInstanceCount => InstructionKind::DclGsInstanceCount { count: n },
        Opcode::DclFunctionBody => InstructionKind::DclFunctionBody { index: n },
        Opcode::DclHsMaxTessFactor => InstructionKind::DclHsMaxTessFactor { value: n },
        _ => InstructionKind::DclHsForkPhaseInstanceCount { count: n },
    }
}

fn decode_plain(op: Opcode, w: u32, b: &[u32]) -> (r: Option<InstructionKind>)
    ensures
        match r {
            Some(k) => plain_kind(op, w, b@) == Some(k.model()),
            None => plain_kind(op, w, b@) is None,
        },
{
    match op {
        Opcode::DclGlobalFlags => Some(InstructionKind::DclGlobalFlags { flags: decode_flags(w) }),
        Opcode::DclIndexableTemp => match (get(b, 1), get(b, 2), get(b, 3)) {
            (Some(reg), Some(size), Some(components)) => Some(
                InstructionKind::DclIndexableTemp { reg, size, components },
            ),
            _ => None,
        },
        Opcode::DclThreadGroup => match (get(b, 1), get(b, 2), get(b, 3)) {
            (Some(x), Some(y), Some(z)) => Some(InstructionKind::DclThreadGroup { x, y, z }),
            _ => None,
        },
        Opcode::DclGsInputPrimitive => match decode_primitive(bits(w, 11, 0x3F)) {
            Some(primitive) => Some(InstructionKind::DclGsInputPrimitive { primitive }),
            None => None,
        },
        Opcode::DclGsOutputPrimitiveTopology => match decode_topology(bits(w, 11, 0x7F)) {
            Some(topology) => Some(InstructionKind::DclGsOutputTopology { topology }),
            None => None,
        },
        Opcode::DclOutputControlPointCount => Some(
            InstructionKind::DclOutputControlPointCount { count: bits(w, 11, 0x3F) },
        ),
        Opcode::DclInputControlPointCount => Some(
            InstructionKind::DclInputControlPointCount { count: bits(w, 11, 0x3F) },
        ),
        Opcode::DclTessDomain => {
            let t = tess_domains_table();
            match name_of(&t, bits(w, 11, 3)) {
                Some(domain) => Some(InstructionKind::DclTessDomain { domain }),
                None => None,
            }
        },
        Opcode::DclTessPartitioning => {
            let t = tess_partitionings_table();
            match name_of(&t, bits(w, 11, 7)) {
                Some(partitioning) => Some(InstructionKind::DclTessPartitioning { partitioning }),
                None => None,
            }
        },
        Opcode::DclTessOutputPrimitive => {
            let t = tess_output_prims_table();
            match name_of(&t, bits(w, 11, 7)) {
                Some(primitive) => Some(InstructionKind::DclTessOutputPrimitive { primitive }),
                None => None,
            }
        },
        Opcode::DclFunctionTable => match (get(b, 1), get(b, 2)) {
            (Some(table_index), Some(n)) => match list_at(b, 3, n) {
                Some(body_indices) => Some(
                    InstructionKind::DclFunctionTable { table_index, body_indices },
                ),
                None => None,
            },
            _ => None,
        },
        Opcode::DclInterface => match (get(b, 1), get(b, 2), get(b, 3)) {
            (Some(interface_index), Some(num_call_sites), Some(n)) => match list_at(
                b,
                4,
                bits(n, 0, 0xFFFF),
            ) {
                Some(table_indices) => Some(
                    InstructionKind::DclInterface {
                        interface_index,
                        num_call_sites,
                        table_indices,
                    },
                ),
                None => None,
            },
            _ => None,
        },
        _ => match get(b, 1) {
            Some(n) => Some(decode_number(op, n)),
            None => None,
        },
    }
}

fn decode_data_type(v: u32) -> (r: CustomDataType)
    ensures
        r == data_type_of(v),
{
    match v {
        0 => CustomDataType::Comment,
        1 => CustomDataType::DebugInfo,
        2 => CustomDataType::Opaque,
        3 => CustomDataType::ImmediateConstantBuffer,
        _ => CustomDataType::Other(v),
    }
}

fn decode_rows(b: &[u32]) -> (r: Vec<[u32; 4]>)
    requires
        b@.len() >= 2,
    ensures
        r@ == rows_from(b@, 2),
{
    let mut rows: Vec<[u32; 4]> = Vec::new();
    let mut p: usize = 2;
    assert(rows@ + rows_from(b@, 2) =~= rows_from(b@, 2));
    while b.len() - p >= 4
        invariant
            2 <= p <= b.len(),
            rows@ + rows_from(b@, p as int) == rows_from(b@, 2),
        decreases b.len() - p,
    {
        let ghost before = rows@;
        let row = [b[p], b[p + 1], b[p + 2], b[p + 3]];
        rows.push(row);
        assert(before + (seq![row] + rows_from(b@, p as int + 4)) =~= rows@ + rows_from(
            b@,
            p as int + 4,
        ));
        p += 4;
    }
    assert(rows@ + Seq::<[u32; 4]>::empty() =~= rows@);
    rows
}

fn decode_data(w: u32, b: &[u32]) -> (r: Option<InstructionKind>)
    ensures
        match r {
            Some(k) => data_kind(w, b@) == Some(k.model()),
            None => data_kind(w, b@) is None,
        },
{
    let subtype = decode_data_type(bits(w, 11, 0x1F_FFFF));
    if b.len() < 2 {
        return None;
    }
    match subtype {
        CustomDataType::ImmediateConstantBuffer => {
            if (b.len() - 2) % 4 != 0 {
                return None;
            }
            let raw: Vec<u32> = Vec::new();
            assert(raw@ =~= Seq::empty());
            Some(
                InstructionKind::CustomData {
                    subtype,
                    values: decode_rows(b),
                    raw,
                    raw_dword_count: b.len(),
                },
            )
        },
        _ => {
            let mut raw: Vec<u32> = Vec::new();
            let mut i: usize = 2;
            assert(raw@ =~= b@.subrange(2, 2));
            while i < b.len()
                invariant
                    2 <= i <= b.len(),
                    raw@ == b@.subrange(2, i as int),
                decreases b.len() - i,
            {
                raw.push(b[i]);
                i += 1;
                assert(raw@ =~= b@.subrange(2, i as int));
            }
            assert(raw@ =~= b@.skip(2));
            let values: Vec<[u32; 4]> = Vec::new();
            assert(values@ =~= Seq::empty());
            Some(InstructionKind::CustomData { subtype, values, raw, raw_dword_count: b.len() })
        },
    }
}

fn phase_opcode(op: Opcode) -> (r: bool)
    ensures
        r == is_phase(op),
{
    op == Opcode::HsDecls || op == Opcode::HsControlPointPhase || op == Opcode::HsForkPhase || op
        == Opcode::HsJoinPhase
}

fn make_bare(op: Opcode, kind: Option<InstructionKind>) -> (r: Option<Instruction>)
    ensures
        match r {
            Some(i) => kind is Some && bare(op, Some(kind->0.model())) == Some(i.model()),
            None => kind is None,
        },
{
    match kind {
        Some(k) => Some(without_modifiers(op, k)),
        None => None,
    }
}

/// The instruction of the words `b`.
fn decode_instruction(b: &[u32]) -> (r: Option<Instruction>)
    ensures
        match r {
            Some(i) => instruction_of(b@) == Some(i.model()),
            None => instruction_of(b@) is None,
        },
{
    if b.len() == 0 {
        return None;
    }
    let w: u32 = b[0];
    let op = Opcode::from_u32(bits(w, 0, 0x7FF));
    if op == Opcode::CustomData {
        make_bare(op, decode_data(w, b))
    } else if input_opcode(op) || output_opcode(op) {
        make_bare(op, decode_port(op, w, b))
    } else if resource_opcode(op) {
        make_bare(op, decode_resource(op, w, b))
    } else if plain_opcode(op) {
        make_bare(op, decode_plain(op, w, b))
    } else {
        let mut i = with_modifiers(op, w, InstructionKind::HsPhase);
        match decode_extras(&mut i, b, bits(w, 31, 1) == 1) {
            None => None,
            Some(p) => {
                if phase_opcode(op) {
                    return Some(i);
                }
                match decode_operands(b, p) {
                    Some(operands) => {
                        i.kind = InstructionKind::Generic { operands };
                        Some(i)
                    },
                    None => None,
                }
            },
        }
    }
}

fn length_at(ws: &[u32], p: usize) -> (r: u32)
    requires
        p < ws.len(),
    ensures
        r == instruction_len(ws@, p as int),
{
    let w: u32 = ws[p];
    if Opcode::from_u32(bits(w, 0, 0x7FF)) == Opcode::CustomData {
        if p + 1 < ws.len() {
            ws[p + 1]
        } else {
            0
        }
    } else {
        bits(w, 24, 0x7F)
    }
}

/// The instructions from the third word on.
fn decode_instructions(ws: &[u32]) -> (r: Option<Vec<Instruction>>)
    requires
        ws@.len() >= 2,
    ensures
        match r {
            Some(v) => instructions_from(ws@, 2) == Some(instruction_models(v@)),
            None => instructions_from(ws@, 2) is None,
        },
{
    let mut out: Vec<Instruction> = Vec::new();
    let mut p: usize = 2;
    assert(instruction_models(out@) =~= Seq::empty());
    proof {
        match instructions_from(ws@, 2) {
            Some(all) => {
                assert(Seq::<InstructionModel>::empty() + all =~= all);
            },
            None => {},
        }
    }
    while p < ws.len()
        invariant
            2 <= p <= ws.len(),
            match instructions_from(ws@, p as int) {
                Some(more) => instructions_from(ws@, 2) == Some(instruction_models(out@) + more),
                None => instructions_from(ws@, 2) is None,
            },
        decreases ws.len() - p,
    {
        let n: u32 = length_at(ws, p);
        if n == 0 || n as u64 > (ws.len() - p) as u64 {
            return None;
        }
        let len: usize = n as usize;
        match decode_instruction(vstd::slice::slice_subrange(ws, p, p + len)) {
            None => {
                return None;
            },
            Some(i) => {
                let ghost before = out@;
                out.push(i);
                proof {
                    assert(instruction_models(out@) =~= instruction_models(before).push(i.model()));
                    match instructions_from(ws@, p + len) {
                        Some(more) => {
                            assert(instruction_models(before) + (seq![i.model()] + more)
                                =~= instruction_models(out@) + more);
                        },
                        None => {},
                    }
                }
            },
        }
        p = p + len;
    }
    assert(instruction_models(out@) + Seq::<InstructionModel>::empty() =~= instruction_models(
        out@,
    ));
    Some(out)
}

/// The words that bytecode counts as its own.
fn read_words(data: &[u8]) -> (r: Option<Vec<u32>>)
    ensures
        match r {
            Some(v) => counted_words(data@) == Some(v@),
            None => counted_words(data@) is None,
        },
{
    let ghost d = data@;
    if data.len() < 8 {
        return None;
    }
    let mut c = cursor_new(data);
    let version: u32 = match cursor_read_u32(&mut c) {
        Some(v) => v,
        None => {
            return None;
        },
    };
    let n: u32 = match cursor_read_u32(&mut c) {
        Some(v) => v,
        None => {
            return None;
        },
    };
    if n < 2 || 4 * n as u64 > data.len() as u64 {
        return None;
    }
    let mut ws: Vec<u32> = Vec::new();
    ws.push(version);
    ws.push(n);
    while ws.len() < n as usize
        invariant
            d == data@,
            4 * n <= d.len(),
            2 <= ws@.len() <= n,
            cursor_bytes(c) == d,
            cursor_pos(c) == 4 * ws@.len(),
            forall|i: int| 0 <= i < ws@.len() ==> #[trigger] ws@[i] == word_at(d, 4 * i),
        decreases n - ws@.len(),
    {
        match cursor_read_u32(&mut c) {
            Some(v) => {
                ws.push(v);
            },
            None => {
                return None;
            },
        }
    }
    assert(ws@ =~= counted_words(d)->0);
    Some(ws)
}

/// The program in the bytecode of a chunk with that code.
pub fn decode_with_fourcc(data: &[u8], fourcc: [u8; 4]) -> (r: Option<Program>)
    ensures
        match r {
            Some(p) => program_of(data@, fourcc@) == Some(p.model()) && p.warnings@.len() == 0,
            None => program_of(data@, fourcc@) is None,
        },
{
    let ws = match read_words(data) {
        Some(ws) => ws,
        None => {
            return None;
        },
    };
    assert(ws@.len() >= 2);
    let w: u32 = ws[0];
    let t = shader_types_table();
    match (name_of(&t, bits(w, 16, 0xFFFF)), decode_instructions(ws.as_slice())) {
        (Some(shader_type), Some(instructions)) => Some(
            Program {
                shader_type,
                major_version: bits(w, 4, 0xF),
                minor_version: bits(w, 0, 0xF),
                instructions,
                warnings: Vec::new(),
                fourcc,
            },
        ),
        _ => None,
    }
}

/// The program in bytecode.
pub fn decode(data: &[u8]) -> (r: Option<Program>)
    ensures
        match r {
            Some(p) => program_of(data@, crate::grammar::shex::text::shex_code()) == Some(
                p.model(),
            ) && p.warnings@.len() == 0,
            None => program_of(data@, crate::grammar::shex::text::shex_code()) is None,
        },
{
    let code = [0x53u8, 0x48u8, 0x45u8, 0x58u8];
    assert(code@ =~= crate::grammar::shex::text::shex_code());
    decode_with_fourcc(data, code)
}

} // verus!
