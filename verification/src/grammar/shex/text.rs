//! The text of a shader program: what the writer writes, as sequences.
//!
//! ```text
//! program    = profile NL { instruction NL }
//! profile    = stage "_" major "_" minor [ " " fourcc ]
//! generic    = mnemonic modifiers [ " " operand { ", " operand } ]
//! operand    = [ "-" ] [ "|" ] core components [ "|" ]
//! core       = ("l" | "d") "(" value { ", " value } ")" | register indices
//! components = ":" { axis } | ".1" | "." axis | "." axis axis axis axis
//! ```

use vstd::prelude::*;

use crate::floats::{Spellings, spelled};
use crate::grammar::tables::{axis_char, dimensions, table_name};
use crate::numerals::{dec_text, hex_padded, hex_text, int_text};
use crate::shex::ir::{
    ComponentSelect, CustomDataType, GsPrimitive, ImmediateType, IndexModel, InstructionModel,
    KindModel, Modifiers, Opcode, OperandModel, ProgramModel, RegisterType, ReturnType,
};
use crate::shex::opcodes::imm_type_of;

verus! {

// ---------------------------------------------------------------------------
// Operands
// ---------------------------------------------------------------------------

/// `0x` and eight hexadecimal digits.
pub open spec fn hex8_text(v: u32) -> Seq<char> {
    "0x"@ + hex_padded(v as nat, 8)
}

/// The two's complement reading of `v`.
pub open spec fn signed_value(v: u32) -> int {
    if v < 0x8000_0000 {
        v as int
    } else {
        v - 0x1_0000_0000
    }
}

/// One immediate value.
pub open spec fn imm_text(v: u32, ty: ImmediateType, ft: Spellings) -> Seq<char> {
    match ty {
        ImmediateType::Float => match spelled(ft, v) {
            Some(s) => s,
            None => hex8_text(v),
        },
        ImmediateType::Int => int_text(signed_value(v)),
        ImmediateType::Uint => hex8_text(v),
    }
}

/// The immediate values from number `k` on, separated by commas.
pub open spec fn imms_text(vals: Seq<u32>, k: int, ty: ImmediateType, ft: Spellings) -> Seq<char>
    decreases vals.len() - k,
{
    if k < 0 || k >= vals.len() {
        Seq::empty()
    } else {
        (if k > 0 {
            ", "@
        } else {
            Seq::empty()
        }) + imm_text(vals[k], ty, ft) + imms_text(vals, k + 1, ty, ft)
    }
}

/// The letters of the components in the mask `m`, from number `k` on.
pub open spec fn mask_text(m: u8, k: int) -> Seq<char>
    decreases 4 - k,
{
    if k < 0 || k >= 4 {
        Seq::empty()
    } else {
        (if mask_has(m, k) {
            seq![axis_char(k)]
        } else {
            Seq::empty()
        }) + mask_text(m, k + 1)
    }
}

/// Whether the mask holds component `k`.
pub open spec fn mask_has(m: u8, k: int) -> bool {
    if k == 0 {
        m & 1 != 0
    } else if k == 1 {
        m & 2 != 0
    } else if k == 2 {
        m & 4 != 0
    } else {
        m & 8 != 0
    }
}

/// A component selection.
pub open spec fn components_text(c: ComponentSelect) -> Seq<char> {
    match c {
        ComponentSelect::ZeroComponent => Seq::empty(),
        ComponentSelect::OneComponent => ".1"@,
        ComponentSelect::Scalar(c) => seq!['.', axis_char((c % 4) as int)],
        ComponentSelect::Swizzle(s) => seq![
            '.',
            axis_char((s[0] % 4) as int),
            axis_char((s[1] % 4) as int),
            axis_char((s[2] % 4) as int),
            axis_char((s[3] % 4) as int),
        ],
        ComponentSelect::Mask(m) => seq![':'] + mask_text(m, 0),
    }
}

/// The components that an immediate of `n` values has where none are written.
pub open spec fn implied_components(n: int) -> ComponentSelect {
    if n == 1 {
        ComponentSelect::OneComponent
    } else {
        ComponentSelect::Mask(0)
    }
}

/// Whether the operand is written as a list of values.
pub open spec fn is_inline_immediate(op: OperandModel) -> bool {
    op.indices.len() == 0 && (op.reg_type == RegisterType::Immediate32 || op.reg_type
        == RegisterType::Immediate64)
}

/// Whether the operand's components are left out of its text.
pub open spec fn components_implied(op: OperandModel) -> bool {
    is_inline_immediate(op) && op.immediate_values.len() > 0 && op.components == implied_components(
        op.immediate_values.len() as int,
    )
}

/// One operand.
pub open spec fn operand_text(op: OperandModel, ty: ImmediateType, ft: Spellings) -> Seq<char>
    decreases op, 1int,
{
    (if op.negate {
        seq!['-']
    } else {
        Seq::empty()
    }) + ((if op.abs {
        seq!['|']
    } else {
        Seq::empty()
    }) + (core_text(op, ty, ft) + ((if components_implied(op) {
        Seq::empty()
    } else {
        components_text(op.components)
    }) + (if op.abs {
        seq!['|']
    } else {
        Seq::empty()
    }))))
}

/// An operand's register and indices, or its immediate values.
pub open spec fn core_text(op: OperandModel, ty: ImmediateType, ft: Spellings) -> Seq<char>
    decreases op, 0int,
{
    if is_inline_immediate(op) {
        if op.reg_type == RegisterType::Immediate32 {
            "l("@ + imms_text(op.immediate_values, 0, ty, ft) + seq![')']
        } else {
            "d("@ + imms_text(op.immediate_values, 0, ImmediateType::Uint, ft) + seq![')']
        }
    } else {
        register_text(op.reg_type) + indices_text(op.indices, 0, ft)
    }
}

/// A register file's prefix, or its number where it has none.
pub open spec fn register_text(r: RegisterType) -> Seq<char> {
    match r {
        RegisterType::Unknown(v) => "?reg("@ + dec_text(v as nat) + seq![')'],
        _ => r.prefix_text(),
    }
}

/// The indices from number `k` on: the first bare where it is a number, the
/// others in brackets.
pub open spec fn indices_text(ix: Seq<IndexModel>, k: int, ft: Spellings) -> Seq<char>
    decreases ix, ix.len() - k,
{
    if k < 0 || k >= ix.len() {
        Seq::empty()
    } else {
        (if k == 0 && is_number(ix[k]) {
            index_text(ix[k], ft)
        } else {
            seq!['['] + index_text(ix[k], ft) + seq![']']
        }) + indices_text(ix, k + 1, ft)
    }
}

/// Whether an index is a number.
pub open spec fn is_number(ix: IndexModel) -> bool {
    ix is Imm32 || ix is Imm64
}

/// One index, without brackets.
pub open spec fn index_text(ix: IndexModel, ft: Spellings) -> Seq<char>
    decreases ix, 0int,
{
    match ix {
        IndexModel::Imm32(v) => dec_text(v as nat),
        IndexModel::Imm64(v) => dec_text(v as nat).push('L'),
        IndexModel::Relative(op) => operand_text(*op, ImmediateType::Uint, ft),
        IndexModel::RelativePlusImm(v, op) => operand_text(*op, ImmediateType::Uint, ft) + (" + "@
            + dec_text(v as nat)),
    }
}

// ---------------------------------------------------------------------------
// Mnemonics and modifiers
// ---------------------------------------------------------------------------

/// An opcode's mnemonic, or `op` and its number where it has none.
pub open spec fn mnemonic_text(op: Opcode) -> Seq<char> {
    match op {
        Opcode::Unknown(v) => "op"@ + dec_text(v as nat),
        _ => op.mnemonic(),
    }
}

/// The dimension field of a resource-dimension word.
pub open spec fn rd_dim(rd: u32) -> u32 {
    (rd >> 6) & 0x1F
}

/// The stride field of a resource-dimension word.
pub open spec fn rd_stride(rd: u32) -> u32 {
    (rd >> 11) & 0xF_FFFF
}

/// The resource-dimension word of a dimension and a stride.
pub open spec fn rd_word(dim: u32, stride: u32) -> u32 {
    2 | (dim << 6) | (stride << 11)
}

/// A resource-dimension word: by name where its fields are all there is to it,
/// else in hexadecimal.
pub open spec fn resource_dim_text(rd: u32) -> Seq<char> {
    let name = table_name(dimensions(), rd_dim(rd));
    if rd & 0x3F == 2 && rd_word(rd_dim(rd), rd_stride(rd)) == rd && name is Some {
        if rd_stride(rd) == 0 {
            "_res("@ + name->0 + seq![')']
        } else {
            "_res("@ + name->0 + ",stride="@ + dec_text(rd_stride(rd) as nat) + seq![')']
        }
    } else {
        "_rd"@ + hex_padded(rd as nat, 8)
    }
}

/// The return type field number `i` of a return-type word.
pub open spec fn rr_part(rr: u32, i: int) -> u32 {
    if i == 0 {
        (rr >> 6) & 0xF
    } else if i == 1 {
        (rr >> 10) & 0xF
    } else if i == 2 {
        (rr >> 14) & 0xF
    } else {
        (rr >> 18) & 0xF
    }
}

/// The return-type word of four types.
pub open spec fn rr_word(a: u32, b: u32, c: u32, d: u32) -> u32 {
    3 | (a << 6) | (b << 10) | (c << 14) | (d << 18)
}

/// A return type: its name, or `unknown` and its number.
pub open spec fn return_type_text(t: ReturnType) -> Seq<char> {
    match t {
        ReturnType::Unknown(v) => "unknown"@ + dec_text(v as nat),
        _ => t.name_text(),
    }
}

/// Four return types, separated by commas.
pub open spec fn return_types_text(
    a: ReturnType,
    b: ReturnType,
    c: ReturnType,
    d: ReturnType,
) -> Seq<char> {
    return_type_text(a) + (seq![','] + (return_type_text(b) + (seq![','] + (return_type_text(c) + (
    seq![','] + return_type_text(d))))))
}

/// A return-type word: by names where its fields are all there is to it, else
/// in hexadecimal.
pub open spec fn resource_rt_text(rr: u32) -> Seq<char> {
    if rr & 0x3F == 3 && rr_word(rr_part(rr, 0), rr_part(rr, 1), rr_part(rr, 2), rr_part(rr, 3))
        == rr {
        "_rt("@ + return_types_text(
            ReturnType::spec_from_u32(rr_part(rr, 0)),
            ReturnType::spec_from_u32(rr_part(rr, 1)),
            ReturnType::spec_from_u32(rr_part(rr, 2)),
            ReturnType::spec_from_u32(rr_part(rr, 3)),
        ) + seq![')']
    } else {
        "_rr"@ + hex_padded(rr as nat, 8)
    }
}

/// The texel offsets.
pub open spec fn offsets_text(o: [i8; 3]) -> Seq<char> {
    "_off("@ + (int_text(o[0] as int) + (seq![','] + (int_text(o[1] as int) + (seq![','] + (
    int_text(o[2] as int) + seq![')'])))))
}

/// The modifier that sets what a size query returns.
pub open spec fn mod_ri(m: Modifiers) -> Seq<char> {
    match m.resinfo_return_type {
        Some(n) => "_ri"@ + dec_text(n as nat),
        None => Seq::empty(),
    }
}

/// The modifier for clamping.
pub open spec fn mod_sat(m: Modifiers) -> Seq<char> {
    if m.saturate {
        "_sat"@
    } else {
        Seq::empty()
    }
}

/// The modifier for a test for non-zero.
pub open spec fn mod_nz(m: Modifiers) -> Seq<char> {
    if m.test_nonzero {
        "_nz"@
    } else {
        Seq::empty()
    }
}

/// The modifier for precise components.
pub open spec fn mod_pm(m: Modifiers) -> Seq<char> {
    if m.precise_mask != 0 {
        "_pm"@ + hex_text(m.precise_mask as nat)
    } else {
        Seq::empty()
    }
}

/// The modifier for what a barrier synchronises.
pub open spec fn mod_sf(m: Modifiers) -> Seq<char> {
    if m.sync_flags != 0 {
        "_sf"@ + hex_text(m.sync_flags as nat)
    } else {
        Seq::empty()
    }
}

/// The modifier for texel offsets.
pub open spec fn mod_off(m: Modifiers) -> Seq<char> {
    match m.tex_offsets {
        Some(o) => offsets_text(o),
        None => Seq::empty(),
    }
}

/// The modifier for the resource dimension.
pub open spec fn mod_res(m: Modifiers) -> Seq<char> {
    match m.resource_dim {
        Some(r) => resource_dim_text(r),
        None => Seq::empty(),
    }
}

/// The modifier for the resource return types.
pub open spec fn mod_rt(m: Modifiers) -> Seq<char> {
    match m.resource_return_type {
        Some(r) => resource_rt_text(r),
        None => Seq::empty(),
    }
}

/// The modifiers in their order, each written where it is set.
pub open spec fn modifiers_text(m: Modifiers) -> Seq<char> {
    mod_ri(m) + (mod_sat(m) + (mod_nz(m) + (mod_pm(m) + (mod_sf(m) + (mod_off(m) + (mod_res(m)
        + mod_rt(m)))))))
}

// ---------------------------------------------------------------------------
// Instructions
// ---------------------------------------------------------------------------

/// The operands from number `k` on, the first behind a space and the others
/// behind a comma.
pub open spec fn operand_list_text(
    ops: Seq<OperandModel>,
    k: int,
    ty: ImmediateType,
    ft: Spellings,
) -> Seq<char>
    decreases ops.len() - k,
{
    if k < 0 || k >= ops.len() {
        Seq::empty()
    } else {
        (if k == 0 {
            " "@
        } else {
            ", "@
        }) + operand_text(ops[k], ty, ft) + operand_list_text(ops, k + 1, ty, ft)
    }
}

/// The operands from number `k` on, each behind a space.
pub open spec fn spaced_operands_text(ops: Seq<OperandModel>, k: int, ft: Spellings) -> Seq<char>
    decreases ops.len() - k,
{
    if k < 0 || k >= ops.len() {
        Seq::empty()
    } else {
        " "@ + operand_text(ops[k], ImmediateType::Uint, ft) + spaced_operands_text(ops, k + 1, ft)
    }
}

/// The flag names from number `k` on, separated by bars.
pub open spec fn flags_text(flags: Seq<Seq<char>>, k: int) -> Seq<char>
    decreases flags.len() - k,
{
    if k < 0 || k >= flags.len() {
        Seq::empty()
    } else {
        (if k == 0 {
            " "@
        } else {
            "|"@
        }) + flags[k] + flags_text(flags, k + 1)
    }
}

/// The words from number `k` on, separated by commas.
pub open spec fn word_list_text(ws: Seq<u32>, k: int) -> Seq<char>
    decreases ws.len() - k,
{
    if k < 0 || k >= ws.len() {
        Seq::empty()
    } else {
        (if k > 0 {
            ", "@
        } else {
            Seq::empty()
        }) + dec_text(ws[k] as nat) + word_list_text(ws, k + 1)
    }
}

/// The rows of an immediate constant buffer from number `k` on.
pub open spec fn rows_text(rows: Seq<[u32; 4]>, k: int) -> Seq<char>
    decreases rows.len() - k,
{
    if k < 0 || k >= rows.len() {
        Seq::empty()
    } else {
        (if k > 0 {
            ","@
        } else {
            Seq::empty()
        }) + row_text(rows[k]) + rows_text(rows, k + 1)
    }
}

/// One row of an immediate constant buffer.
pub open spec fn row_text(row: [u32; 4]) -> Seq<char> {
    " "@ + hex8_text(row[0]) + (" "@ + hex8_text(row[1]) + (" "@ + hex8_text(row[2]) + (" "@
        + hex8_text(row[3]))))
}

/// The words of a data block from number `k` on, each behind a space.
pub open spec fn raw_text(raw: Seq<u32>, k: int) -> Seq<char>
    decreases raw.len() - k,
{
    if k < 0 || k >= raw.len() {
        Seq::empty()
    } else {
        " "@ + hex8_text(raw[k]) + raw_text(raw, k + 1)
    }
}

/// The name of a data block's kind.
pub open spec fn data_tag_text(t: CustomDataType) -> Seq<char> {
    match t {
        CustomDataType::ImmediateConstantBuffer => "icb"@,
        CustomDataType::Comment => "comment"@,
        CustomDataType::DebugInfo => "debuginfo"@,
        CustomDataType::Opaque => "opaque"@,
        CustomDataType::Other(v) => "other("@ + dec_text(v as nat) + seq![')'],
    }
}

/// A data block, behind its keyword.
pub open spec fn custom_data_text(
    t: CustomDataType,
    values: Seq<[u32; 4]>,
    raw: Seq<u32>,
) -> Seq<char> {
    " "@ + data_tag_text(t) + " {"@ + (if t is ImmediateConstantBuffer {
        rows_text(values, 0)
    } else {
        raw_text(raw, 0)
    }) + " }"@
}

/// The interpolation mode, where there is one.
pub open spec fn interp_text(i: Option<Seq<char>>) -> Seq<char> {
    match i {
        Some(n) => " interp("@ + n + seq![')'],
        None => Seq::empty(),
    }
}

/// The system value, where there is one.
pub open spec fn sv_text(s: Option<Seq<char>>) -> Seq<char> {
    match s {
        Some(n) => " sv("@ + n + seq![')'],
        None => Seq::empty(),
    }
}

/// A primitive that a geometry shader takes.
pub open spec fn gs_primitive_text(p: GsPrimitive) -> Seq<char> {
    match p {
        GsPrimitive::ControlPointPatch(n) => "patchlist("@ + dec_text(n as nat) + seq![')'],
        _ => p.name_text(),
    }
}

/// A space and a number.
pub open spec fn spaced_dec(n: u32) -> Seq<char> {
    " "@ + dec_text(n as nat)
}

/// The dimension and the return types of a typed resource.
pub open spec fn typed_text(dimension: Seq<char>, rt: [ReturnType; 4]) -> Seq<char> {
    " "@ + dimension + " ("@ + return_types_text(rt[0], rt[1], rt[2], rt[3]) + seq![')']
}

/// The flags of an unordered-access view.
pub open spec fn uav_flags_text(flags: u32) -> Seq<char> {
    " flags(0x"@ + hex_text(flags as nat) + seq![')']
}

/// The stride of a structured resource.
pub open spec fn stride_text(stride: u32) -> Seq<char> {
    " stride("@ + dec_text(stride as nat) + seq![')']
}

/// What a declaration writes behind its mnemonic.
pub open spec fn declaration_text(kind: KindModel, ft: Spellings) -> Seq<char> {
    match kind {
        KindModel::DclGlobalFlags { flags } => flags_text(flags, 0),
        KindModel::DclInput { interpolation, system_value, operands } => interp_text(interpolation)
            + spaced_operands_text(operands, 0, ft) + sv_text(system_value),
        KindModel::DclOutput { system_value, operands } => spaced_operands_text(operands, 0, ft)
            + sv_text(system_value),
        KindModel::DclResource { dimension, sample_count, return_type, operands } => typed_text(
            dimension,
            return_type,
        ) + spaced_operands_text(operands, 0, ft) + (" samples("@ + dec_text(sample_count as nat)
            + seq![')']),
        KindModel::DclSampler { mode, operands } => spaced_operands_text(operands, 0, ft) + (
        " mode("@ + mode + seq![')']),
        KindModel::DclConstantBuffer { access, operands } => spaced_operands_text(operands, 0, ft)
            + (" access("@ + access + seq![')']),
        KindModel::DclTemps { count } => spaced_dec(count),
        KindModel::DclIndexableTemp { reg, size, components } => spaced_dec(reg) + (spaced_dec(size)
            + spaced_dec(components)),
        KindModel::DclGsInputPrimitive { primitive } => " "@ + gs_primitive_text(primitive),
        KindModel::DclGsOutputTopology { topology } => " "@ + topology.name_text(),
        KindModel::DclMaxOutputVertexCount { count } => spaced_dec(count),
        KindModel::DclGsInstanceCount { count } => spaced_dec(count),
        KindModel::DclOutputControlPointCount { count } => spaced_dec(count),
        KindModel::DclInputControlPointCount { count } => spaced_dec(count),
        KindModel::DclHsForkPhaseInstanceCount { count } => spaced_dec(count),
        KindModel::DclTessDomain { domain } => " "@ + domain,
        KindModel::DclTessPartitioning { partitioning } => " "@ + partitioning,
        KindModel::DclTessOutputPrimitive { primitive } => " "@ + primitive,
        KindModel::DclHsMaxTessFactor { value } => " "@ + hex8_text(value),
        KindModel::DclThreadGroup { x, y, z } => spaced_dec(x) + (spaced_dec(y) + spaced_dec(z)),
        KindModel::DclUavTyped { dimension, flags, return_type, operands } => typed_text(
            dimension,
            return_type,
        ) + spaced_operands_text(operands, 0, ft) + uav_flags_text(flags),
        KindModel::DclUavRaw { flags, operands } => spaced_operands_text(operands, 0, ft)
            + uav_flags_text(flags),
        KindModel::DclUavStructured { flags, stride, operands } => spaced_operands_text(
            operands,
            0,
            ft,
        ) + stride_text(stride) + uav_flags_text(flags),
        KindModel::DclResourceRaw { operands } => spaced_operands_text(operands, 0, ft),
        KindModel::DclResourceStructured { stride, operands } => spaced_operands_text(
            operands,
            0,
            ft,
        ) + stride_text(stride),
        KindModel::DclFunctionBody { index } => spaced_dec(index),
        KindModel::DclFunctionTable { table_index, body_indices } => spaced_dec(table_index)
            + " {"@ + word_list_text(body_indices, 0) + seq!['}'],
        KindModel::DclInterface { interface_index, num_call_sites, table_indices } => spaced_dec(
            interface_index,
        ) + spaced_dec(num_call_sites) + " {"@ + word_list_text(table_indices, 0) + seq!['}'],
        KindModel::DclIndexRange { operands, count } => spaced_operands_text(operands, 0, ft)
            + spaced_dec(count),
        KindModel::Generic { .. } => Seq::empty(),
        KindModel::HsPhase => Seq::empty(),
        KindModel::CustomData { .. } => Seq::empty(),
    }
}

/// One instruction.
pub open spec fn instruction_text(i: InstructionModel, ft: Spellings) -> Seq<char> {
    match i.kind {
        KindModel::Generic { operands } => mnemonic_text(i.opcode) + modifiers_text(i.mods)
            + operand_list_text(operands, 0, imm_type_of(i.opcode), ft),
        KindModel::HsPhase => mnemonic_text(i.opcode) + modifiers_text(i.mods),
        KindModel::CustomData { subtype, values, raw, raw_dword_count } => i.opcode.mnemonic()
            + custom_data_text(subtype, values, raw),
        _ => i.opcode.mnemonic() + declaration_text(i.kind, ft),
    }
}

/// The instructions from number `k` on, a line each.
pub open spec fn instructions_text(
    is: Seq<InstructionModel>,
    k: int,
    ft: Spellings,
) -> Seq<char>
    decreases is.len() - k,
{
    if k < 0 || k >= is.len() {
        Seq::empty()
    } else {
        instruction_text(is[k], ft).push('\n') + instructions_text(is, k + 1, ft)
    }
}

/// A four-character code as text; `SHEX` where it is no text.
pub open spec fn fourcc_text(f: Seq<u8>) -> Seq<char> {
    if vstd::utf8::valid_utf8(f) {
        vstd::utf8::decode_utf8(f)
    } else {
        "SHEX"@
    }
}

/// The code of a program chunk.
pub open spec fn shex_code() -> Seq<u8> {
    seq![0x53u8, 0x48u8, 0x45u8, 0x58u8]
}

/// The profile line.
pub open spec fn profile_text(p: ProgramModel) -> Seq<char> {
    p.shader_type + (seq!['_'] + (dec_text(p.major_version as nat) + (seq!['_'] + (dec_text(
        p.minor_version as nat,
    ) + (if p.fourcc == shex_code() {
        Seq::empty()
    } else {
        " "@ + fourcc_text(p.fourcc)
    })))))
}

/// The text of a program.
pub open spec fn program_text(p: ProgramModel, ft: Spellings) -> Seq<char> {
    profile_text(p).push('\n') + instructions_text(p.instructions, 0, ft)
}

} // verus!
