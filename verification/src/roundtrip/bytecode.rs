//! Programs in bytecode read back.

use vstd::prelude::*;

use crate::bytes::{lemma_words_bytes, word_at};
use crate::grammar::tables::{
    cb_access, dimensions, interpolations, sampler_modes, shader_types, system_value_number,
    system_value_text, system_values, table_name, tess_domains, tess_output_prims, tess_partitionings,
};
use crate::roundtrip::bytecode_fields::{
    first_word, flags_fit, lemma_far_modifiers, lemma_first_word, lemma_flags, lemma_low_field,
    lemma_name_field, lemma_near_modifiers, lemma_primitive, lemma_topology, lemma_two_fields,
    lemma_types, middle, modifiers_fit, primitive_fits, types_fit,
};
use crate::roundtrip::bytecode_operands::{
    lemma_operand, lemma_operands, lemma_stand_split, lemma_stand_word, operand_fits, operands_fit,
    words_stand,
};
use crate::roundtrip::tables::{is_entry, lemma_name_and_number};
use crate::shex::decode::{
    counted_words, data_type_of, field, instruction_len, instruction_of, instructions_from,
    is_input, is_output, is_phase, is_plain_decl, is_resource_decl, names_interpolation,
    names_system_value, operand_at, plain_kind, port_kind, program_of, resource_kind, rows_from,
    system_value_at, word,
};
use crate::shex::encode::{
    all_operands, body_words, chained, code_of, control_bits, data_class, data_words, extra_words,
    instruction_words, instructions_words, modifier_bits, operand_words, operands_words,
    primitive_code, program_bytes, program_words, row_words, sv_words, takes_modifiers,
    topology_code, types_word,
};
use crate::shex::ir::{
    InstructionModel, KindModel, Opcode, OperandModel, ProgramModel, no_modifiers,
};

verus! {

// ---------------------------------------------------------------------------
// What fits
// ---------------------------------------------------------------------------

/// Whether there is one operand, and it fits.
pub open spec fn one_operand_fits(ops: Seq<OperandModel>) -> bool {
    ops.len() == 1 && operand_fits(ops[0])
}

/// Whether the declaration of an input or output fits the opcode: it names a
/// system value and an interpolation mode where the opcode says so.
pub open spec fn port_fits(op: Opcode, k: KindModel) -> bool {
    match k {
        KindModel::DclInput { interpolation, system_value, operands } => {
            &&& is_input(op)
            &&& one_operand_fits(operands)
            &&& names_interpolation(op) == interpolation is Some
            &&& names_system_value(op) == system_value is Some
            &&& interpolation is Some ==> is_entry(interpolations(), interpolation->0)
            &&& system_value is Some ==> is_entry(system_values(), system_value->0)
        },
        KindModel::DclOutput { system_value, operands } => {
            &&& is_output(op)
            &&& one_operand_fits(operands)
            &&& names_system_value(op) == system_value is Some
            &&& system_value is Some ==> is_entry(system_values(), system_value->0)
        },
        _ => false,
    }
}

/// Whether the declaration of one operand fits the opcode.
pub open spec fn resource_fits(op: Opcode, k: KindModel) -> bool {
    match k {
        KindModel::DclResource { dimension, sample_count, return_type, operands } => {
            &&& op == Opcode::DclResource
            &&& is_entry(dimensions(), dimension)
            &&& sample_count <= 0x7F
            &&& types_fit(return_type)
            &&& one_operand_fits(operands)
        },
        KindModel::DclUavTyped { dimension, flags, return_type, operands } => {
            &&& op == Opcode::DclUnorderedAccessViewTyped
            &&& is_entry(dimensions(), dimension)
            &&& flags <= 0xFF
            &&& types_fit(return_type)
            &&& one_operand_fits(operands)
        },
        KindModel::DclUavRaw { flags, operands } => {
            &&& op == Opcode::DclUnorderedAccessViewRaw
            &&& flags <= 0xFF
            &&& one_operand_fits(operands)
        },
        KindModel::DclUavStructured { flags, operands, .. } => {
            &&& op == Opcode::DclUnorderedAccessViewStructured
            &&& flags <= 0xFF
            &&& one_operand_fits(operands)
        },
        KindModel::DclResourceRaw { operands } => op == Opcode::DclResourceRaw
            && one_operand_fits(operands),
        KindModel::DclResourceStructured { operands, .. } => op == Opcode::DclResourceStructured
            && one_operand_fits(operands),
        KindModel::DclSampler { mode, operands } => op == Opcode::DclSampler && is_entry(
            sampler_modes(),
            mode,
        ) && one_operand_fits(operands),
        KindModel::DclConstantBuffer { access, operands } => op == Opcode::DclConstantBuffer
            && is_entry(cb_access(), access) && one_operand_fits(operands),
        KindModel::DclIndexRange { operands, .. } => op == Opcode::DclIndexRange
            && one_operand_fits(operands),
        _ => false,
    }
}

/// Whether the declaration of numbers and names fits the opcode.
pub open spec fn plain_fits(op: Opcode, k: KindModel) -> bool {
    match k {
        KindModel::DclGlobalFlags { flags } => op == Opcode::DclGlobalFlags && flags_fit(flags),
        KindModel::DclTemps { .. } => op == Opcode::DclTemps,
        KindModel::DclIndexableTemp { .. } => op == Opcode::DclIndexableTemp,
        KindModel::DclGsInputPrimitive { primitive } => op == Opcode::DclGsInputPrimitive
            && primitive_fits(primitive),
        KindModel::DclGsOutputTopology { .. } => op == Opcode::DclGsOutputPrimitiveTopology,
        KindModel::DclMaxOutputVertexCount { .. } => op == Opcode::DclMaxOutputVertexCount,
        KindModel::DclGsInstanceCount { .. } => op == Opcode::DclGsInstanceCount,
        KindModel::DclOutputControlPointCount { count } => op == Opcode::DclOutputControlPointCount
            && count <= 0x3F,
        KindModel::DclInputControlPointCount { count } => op == Opcode::DclInputControlPointCount
            && count <= 0x3F,
        KindModel::DclTessDomain { domain } => op == Opcode::DclTessDomain && is_entry(
            tess_domains(),
            domain,
        ),
        KindModel::DclTessPartitioning { partitioning } => op == Opcode::DclTessPartitioning
            && is_entry(tess_partitionings(), partitioning),
        KindModel::DclTessOutputPrimitive { primitive } => op == Opcode::DclTessOutputPrimitive
            && is_entry(tess_output_prims(), primitive),
        KindModel::DclHsMaxTessFactor { .. } => op == Opcode::DclHsMaxTessFactor,
        KindModel::DclHsForkPhaseInstanceCount { .. } => op == Opcode::DclHsForkPhaseInstanceCount
            || op == Opcode::DclHsJoinPhaseInstanceCount,
        KindModel::DclThreadGroup { .. } => op == Opcode::DclThreadGroup,
        KindModel::DclFunctionBody { .. } => op == Opcode::DclFunctionBody,
        KindModel::DclFunctionTable { .. } => op == Opcode::DclFunctionTable,
        KindModel::DclInterface { .. } => op == Opcode::DclInterface,
        _ => false,
    }
}

/// Whether a data block is complete: the kind is the one that its number stands
/// for, what belongs to another kind is empty, and the count is that of its words.
pub open spec fn data_fits(k: KindModel) -> bool {
    match k {
        KindModel::CustomData { subtype, values, raw, raw_dword_count } => {
            &&& data_type_of(data_class(subtype)) == subtype
            &&& data_class(subtype) <= 0x1F_FFFF
            &&& if subtype is ImmediateConstantBuffer {
                raw.len() == 0
            } else {
                values.len() == 0
            }
            &&& raw_dword_count == 2 + data_words(subtype, values, raw).len()
            &&& raw_dword_count <= 0xffff_ffff
        },
        _ => false,
    }
}

/// Whether instructions with that opcode are their operands.
pub open spec fn is_open(op: Opcode) -> bool {
    op != Opcode::CustomData && !is_input(op) && !is_output(op) && !is_resource_decl(op)
        && !is_plain_decl(op) && !is_phase(op)
}

/// Whether the opcode is the one that its number stands for, and the number fits
/// its bits.
pub open spec fn opcode_fits(op: Opcode) -> bool {
    Opcode::spec_from_u32(op.spec_to_u32()) == op && op.spec_to_u32() <= 0x7FF
}

/// Whether what the instruction holds fits its opcode, and the modifiers too.
pub open spec fn kind_fits(i: InstructionModel) -> bool {
    match i.kind {
        KindModel::Generic { operands } => is_open(i.opcode) && operands_fit(operands)
            && modifiers_fit(i.opcode, i.mods),
        KindModel::HsPhase => is_phase(i.opcode) && modifiers_fit(i.opcode, i.mods),
        KindModel::CustomData { .. } => i.opcode == Opcode::CustomData && data_fits(i.kind)
            && i.mods == no_modifiers(),
        _ => (port_fits(i.opcode, i.kind) || resource_fits(i.opcode, i.kind) || plain_fits(
            i.opcode,
            i.kind,
        )) && i.mods == no_modifiers(),
    }
}

/// Whether bytecode can hold an instruction: what it says fits its opcode, and
/// its words can be counted in the seven bits there are.
#[verifier::opaque]
pub open spec fn instruction_fits(i: InstructionModel) -> bool {
    &&& opcode_fits(i.opcode)
    &&& kind_fits(i)
    &&& i.kind is CustomData || instruction_words(i).len() <= 0x7F
}

/// Whether bytecode can hold a program.
pub open spec fn program_fits(p: ProgramModel) -> bool {
    &&& is_entry(shader_types(), p.shader_type)
    &&& p.major_version <= 0xF
    &&& p.minor_version <= 0xF
    &&& forall|i: int| 0 <= i < p.instructions.len() ==> instruction_fits(
        #[trigger] p.instructions[i],
    )
    &&& program_words(p).len() <= 0xffff_ffff
}

// ---------------------------------------------------------------------------
// Declarations
// ---------------------------------------------------------------------------

/// No bits are set where a declaration sets none.
proof fn lemma_no_bits()
    ensures
        middle(0) == 0,
{
    assert(0u32 & 0x00FF_F800 == 0) by (bit_vector);
}

/// The one operand of a declaration, and what stands behind it.
proof fn lemma_one_operand(b: Seq<u32>, w: u32, ops: Seq<OperandModel>, tail: Seq<u32>)
    requires
        one_operand_fits(ops),
        b == seq![w] + (all_operands(ops) + tail),
    ensures
        operand_at(b, 1) == Some((ops[0], (1 + operand_words(ops[0]).len()) as int)),
        tail.len() > 0 ==> word(b, (1 + operand_words(ops[0]).len()) as int) == Some(tail[0]),
        seq![ops[0]] == ops,
{
    reveal_with_fuel(operands_words, 2);
    let ow = operand_words(ops[0]);
    assert(all_operands(ops) =~= ow);
    assert(b.subrange(1, (1 + ow.len()) as int) =~= ow);
    lemma_operand(b, 1, ops[0]);
    assert(seq![ops[0]] =~= ops);
}

/// A system value leads back to its name.
proof fn lemma_system_value(s: Seq<char>)
    requires
        is_entry(system_values(), s),
    ensures
        system_value_text(system_value_number(s)) == s,
{
    lemma_name_and_number(system_values(), s);
}

/// The system value behind an operand.
proof fn lemma_system_value_at(op: Opcode, b: Seq<u32>, p: int, sv: Option<Seq<char>>)
    requires
        names_system_value(op) == sv is Some,
        sv is Some ==> is_entry(system_values(), sv->0),
        sv is Some ==> word(b, p) == Some(sv_words(sv)[0]),
    ensures
        system_value_at(op, b, p) == Some(sv),
{
    if sv is Some {
        lemma_system_value(sv->0);
    }
}

#[verifier::rlimit(40)]
proof fn lemma_port(op: Opcode, k: KindModel, w: u32, b: Seq<u32>)
    requires
        port_fits(op, k),
        b == seq![w] + body_words(k),
    ensures
        middle(control_bits(k)) == control_bits(k),
        middle(w) == control_bits(k) ==> port_kind(op, w, b) == Some(k),
{
    lemma_no_bits();
    match k {
        KindModel::DclInput { interpolation, system_value, operands } => {
            lemma_one_operand(b, w, operands, sv_words(system_value));
            let p = (1 + operand_words(operands[0]).len()) as int;
            lemma_system_value_at(op, b, p, system_value);
            if interpolation is Some {
                lemma_interpolation(interpolation->0, w);
            }
        },
        KindModel::DclOutput { system_value, operands } => {
            lemma_one_operand(b, w, operands, sv_words(system_value));
            let p = (1 + operand_words(operands[0]).len()) as int;
            lemma_system_value_at(op, b, p, system_value);
        },
        _ => {},
    }
}

/// The interpolation mode in a first word.
proof fn lemma_interpolation(s: Seq<char>, w: u32)
    requires
        is_entry(interpolations(), s),
    ensures
        middle(code_of(interpolations(), s) << 11) == code_of(interpolations(), s) << 11,
        middle(w) == code_of(interpolations(), s) << 11 ==> table_name(
            interpolations(),
            field(w, 11, 0xF),
        ) == Some(s),
{
    lemma_name_field(interpolations(), s, w, 0xF);
}

/// The bits of declarations with a dimension.
pub proof fn lemma_masks(s: u32, f: u32)
    requires
        s <= 0x7F,
        f <= 0xFF,
    ensures
        s & 0x7F == s,
        f & 0xFF == f,
        (0u32 << 11) | (f << 16) == f << 16,
{
    assert(s & 0x7F == s) by (bit_vector)
        requires
            s <= 0x7F,
    ;
    assert(f & 0xFF == f && (0u32 << 11) | (f << 16) == f << 16) by (bit_vector)
        requires
            f <= 0xFF,
    ;
}

#[verifier::rlimit(40)]
proof fn lemma_typed(op: Opcode, k: KindModel, w: u32, b: Seq<u32>)
    requires
        resource_fits(op, k),
        k is DclResource || k is DclUavTyped,
        b == seq![w] + body_words(k),
    ensures
        middle(control_bits(k)) == control_bits(k),
        middle(w) == control_bits(k) ==> resource_kind(op, w, b) == Some(k),
{
    match k {
        KindModel::DclResource { dimension, sample_count, return_type, operands } => {
            lemma_name_and_number(dimensions(), dimension);
            lemma_types(return_type);
            lemma_one_operand(b, w, operands, seq![types_word(return_type)]);
            lemma_masks(sample_count, 0);
            lemma_two_fields(w, code_of(dimensions(), dimension), sample_count);
        },
        KindModel::DclUavTyped { dimension, flags, return_type, operands } => {
            lemma_name_and_number(dimensions(), dimension);
            lemma_types(return_type);
            lemma_one_operand(b, w, operands, seq![types_word(return_type)]);
            lemma_masks(0, flags);
            lemma_two_fields(w, code_of(dimensions(), dimension), flags);
        },
        _ => {},
    }
}

#[verifier::rlimit(40)]
proof fn lemma_small_resource(op: Opcode, k: KindModel, w: u32, b: Seq<u32>)
    requires
        resource_fits(op, k),
        !(k is DclUavRaw || k is DclUavStructured || k is DclResourceRaw || k
            is DclResourceStructured),
        b == seq![w] + body_words(k),
    ensures
        middle(control_bits(k)) == control_bits(k),
        middle(w) == control_bits(k) ==> resource_kind(op, w, b) == Some(k),
{
    lemma_no_bits();
    let e = Seq::<u32>::empty();
    match k {
        KindModel::DclSampler { mode, operands } => {
            assert(all_operands(operands) + e =~= all_operands(operands));
            lemma_one_operand(b, w, operands, e);
            lemma_name_field(sampler_modes(), mode, w, 0xF);
        },
        KindModel::DclConstantBuffer { access, operands } => {
            assert(all_operands(operands) + e =~= all_operands(operands));
            lemma_one_operand(b, w, operands, e);
            lemma_name_field(cb_access(), access, w, 1);
        },
        KindModel::DclIndexRange { operands, count } => {
            lemma_one_operand(b, w, operands, seq![count]);
        },
        _ => {
            lemma_typed(op, k, w, b);
        },
    }
}

#[verifier::rlimit(40)]
proof fn lemma_resource(op: Opcode, k: KindModel, w: u32, b: Seq<u32>)
    requires
        resource_fits(op, k),
        b == seq![w] + body_words(k),
    ensures
        middle(control_bits(k)) == control_bits(k),
        middle(w) == control_bits(k) ==> resource_kind(op, w, b) == Some(k),
{
    lemma_no_bits();
    let e = Seq::<u32>::empty();
    match k {
        KindModel::DclUavRaw { flags, operands } => {
            assert(all_operands(operands) + e =~= all_operands(operands));
            lemma_one_operand(b, w, operands, e);
            lemma_masks(0, flags);
            lemma_two_fields(w, 0, flags);
        },
        KindModel::DclUavStructured { flags, stride, operands } => {
            lemma_one_operand(b, w, operands, seq![stride]);
            lemma_masks(0, flags);
            lemma_two_fields(w, 0, flags);
        },
        KindModel::DclResourceRaw { operands } => {
            assert(all_operands(operands) + e =~= all_operands(operands));
            lemma_one_operand(b, w, operands, e);
        },
        KindModel::DclResourceStructured { stride, operands } => {
            lemma_one_operand(b, w, operands, seq![stride]);
        },
        _ => {
            lemma_small_resource(op, k, w, b);
        },
    }
}

/// Declarations that stand in the first word alone.
#[verifier::rlimit(40)]
proof fn lemma_word_decl(op: Opcode, k: KindModel, w: u32, b: Seq<u32>)
    requires
        plain_fits(op, k),
        k is DclGlobalFlags || k is DclGsInputPrimitive || k is DclGsOutputTopology || k
            is DclOutputControlPointCount || k is DclInputControlPointCount || k is DclTessDomain
            || k is DclTessPartitioning || k is DclTessOutputPrimitive,
    ensures
        middle(control_bits(k)) == control_bits(k),
        middle(w) == control_bits(k) ==> plain_kind(op, w, b) == Some(k),
{
    match k {
        KindModel::DclGlobalFlags { flags } => {
            lemma_flags(flags, w);
        },
        KindModel::DclGsInputPrimitive { primitive } => {
            lemma_primitive(primitive);
            lemma_six_bits(primitive_code(primitive));
            lemma_low_field(w, primitive_code(primitive), 0x3F);
        },
        KindModel::DclGsOutputTopology { topology } => {
            lemma_topology(topology);
            lemma_low_field(w, topology_code(topology), 0x7F);
        },
        KindModel::DclOutputControlPointCount { count } => {
            lemma_six_bits(count);
            lemma_low_field(w, count, 0x3F);
        },
        KindModel::DclInputControlPointCount { count } => {
            lemma_six_bits(count);
            lemma_low_field(w, count, 0x3F);
        },
        KindModel::DclTessDomain { domain } => {
            lemma_name_field(tess_domains(), domain, w, 3);
        },
        KindModel::DclTessPartitioning { partitioning } => {
            lemma_name_field(tess_partitionings(), partitioning, w, 7);
        },
        KindModel::DclTessOutputPrimitive { primitive } => {
            lemma_name_field(tess_output_prims(), primitive, w, 7);
        },
        _ => {},
    }
}

pub proof fn lemma_six_bits(v: u32)
    requires
        v <= 0x3F,
    ensures
        v & 0x3F == v,
{
    assert(v & 0x3F == v) by (bit_vector)
        requires
            v <= 0x3F,
    ;
}

#[verifier::rlimit(40)]
proof fn lemma_plain(op: Opcode, k: KindModel, w: u32, b: Seq<u32>)
    requires
        plain_fits(op, k),
        b == seq![w] + body_words(k),
        b.len() <= 0x7F,
    ensures
        middle(control_bits(k)) == control_bits(k),
        middle(w) == control_bits(k) ==> plain_kind(op, w, b) == Some(k),
{
    lemma_no_bits();
    match k {
        KindModel::DclFunctionTable { table_index, body_indices } => {
            let n = body_indices.len() as int;
            assert(b.subrange(3, 3 + n) =~= body_indices);
        },
        KindModel::DclInterface { interface_index, num_call_sites, table_indices } => {
            let n = table_indices.len() as u32;
            let x = (n & 0xFFFF) | 0x1_0000u32;
            assert((x >> 0u32) & 0xFFFF == n) by (bit_vector)
                requires
                    n <= 0x7F,
                    x == (n & 0xFFFF) | 0x1_0000u32,
            ;
            assert(b[3] == x);
            assert(b.subrange(4, 4 + n) =~= table_indices);
        },
        KindModel::DclTemps { count } => {
            assert(b[1] == count);
        },
        KindModel::DclMaxOutputVertexCount { count } => {
            assert(b[1] == count);
        },
        KindModel::DclGsInstanceCount { count } => {
            assert(b[1] == count);
        },
        KindModel::DclHsForkPhaseInstanceCount { count } => {
            assert(b[1] == count);
        },
        KindModel::DclFunctionBody { index } => {
            assert(b[1] == index);
        },
        KindModel::DclHsMaxTessFactor { value } => {
            assert(b[1] == value);
        },
        KindModel::DclIndexableTemp { reg, size, components } => {
            assert(b[1] == reg && b[2] == size && b[3] == components);
        },
        KindModel::DclThreadGroup { x, y, z } => {
            assert(b[1] == x && b[2] == y && b[3] == z);
        },
        _ => {
            lemma_word_decl(op, k, w, b);
        },
    }
}

// ---------------------------------------------------------------------------
// Data blocks
// ---------------------------------------------------------------------------

/// The words that rows take.
pub proof fn lemma_row_words(rows: Seq<[u32; 4]>, n: int)
    requires
        0 <= n <= rows.len(),
    ensures
        row_words(rows, n).len() == 4 * n,
    decreases n,
{
    if n > 0 {
        lemma_row_words(rows, n - 1);
    }
}

/// The rows of four words are those that were written, from row `k` on.
proof fn lemma_rows(b: Seq<u32>, rows: Seq<[u32; 4]>, n: int, k: int)
    requires
        0 <= k <= n,
        n == rows.len(),
        b.len() == 2 + 4 * n,
        forall|i: int, j: int|
            #![trigger rows[i], b[2 + 4 * i + j]]
            0 <= i < n && 0 <= j < 4 ==> b[2 + 4 * i + j] == rows[i][j],
    ensures
        rows_from(b, 2 + 4 * k) == rows.skip(k),
    decreases n - k,
{
    if k < n {
        lemma_rows(b, rows, n, k + 1);
        let p = 2 + 4 * k;
        let r = rows[k];
        assert(b[2 + 4 * k + 0] == r[0]);
        assert(b[2 + 4 * k + 1] == r[1]);
        assert(b[2 + 4 * k + 2] == r[2]);
        assert(b[2 + 4 * k + 3] == r[3]);
        let t = [b[p], b[p + 1], b[p + 2], b[p + 3]];
        assert(t@ =~= r@);
        assert(t =~= r);
        assert(seq![r] + rows.skip(k + 1) =~= rows.skip(k));
    } else {
        assert(rows.skip(k) =~= Seq::empty());
    }
}

/// Each word of the rows in its place.
pub proof fn lemma_row_word(rows: Seq<[u32; 4]>, n: int, i: int, j: int)
    requires
        0 <= i < n <= rows.len(),
        0 <= j < 4,
    ensures
        row_words(rows, n)[4 * i + j] == rows[i][j],
    decreases n,
{
    lemma_row_words(rows, n - 1);
    if i < n - 1 {
        lemma_row_word(rows, n - 1, i, j);
    }
}

#[verifier::rlimit(40)]
/// The first word of a data block.
pub proof fn lemma_data_word(o: u32, c: u32)
    requires
        o <= 0x7FF,
        c <= 0x1F_FFFF,
    ensures
        field((o & 0x7FF) | (c << 11), 0, 0x7FF) == o,
        field((o & 0x7FF) | (c << 11), 11, 0x1F_FFFF) == c,
        ((o & 0x7FF) | (c << 11)) >> 11 == c,
{
    let w = (o & 0x7FF) | (c << 11);
    assert((w >> 0u32) & 0x7FF == o && (w >> 11u32) & 0x1F_FFFF == c && w >> 11u32 == c)
        by (bit_vector)
        requires
            o <= 0x7FF,
            c <= 0x1F_FFFF,
            w == (o & 0x7FF) | (c << 11),
    ;
}

pub proof fn lemma_data(i: InstructionModel)
    requires
        opcode_fits(i.opcode),
        i.kind is CustomData,
        kind_fits(i),
    ensures
        instruction_of(instruction_words(i)) == Some(i),
        instruction_words(i)[1] == instruction_words(i).len(),
        instruction_words(i).len() >= 2,
        Opcode::spec_from_u32(field(instruction_words(i)[0], 0, 0x7FF)) == i.opcode,
{
    let b = instruction_words(i);
    match i.kind {
        KindModel::CustomData { subtype, values, raw, raw_dword_count } => {
            let d = data_words(subtype, values, raw);
            let o = i.opcode.spec_to_u32();
            let c = data_class(subtype);
            let w = b[0];
            assert(w == (o & 0x7FF) | (c << 11));
            lemma_data_word(o, c);
            assert(b.skip(2) =~= d);
            let n = values.len() as int;
            if subtype is ImmediateConstantBuffer {
                lemma_row_words(values, n);
                assert(b.len() == 2 + 4 * n);
                assert forall|x: int, j: int|
                    #![trigger values[x], b[2 + 4 * x + j]]
                    0 <= x < n && 0 <= j < 4 implies b[2 + 4 * x + j] == values[x][j] by {
                    lemma_row_word(values, n, x, j);
                    assert(b[2 + 4 * x + j] == d[4 * x + j]);
                }
                lemma_rows(b, values, n, 0);
                assert(values.skip(0) =~= values);
                assert(raw =~= Seq::empty());
                assert((b.len() - 2) % 4 == 0);
            } else {
                assert(values =~= Seq::empty());
            }
        },
        _ => {},
    }
}

// ---------------------------------------------------------------------------
// Instructions
// ---------------------------------------------------------------------------

#[verifier::rlimit(40)]
pub proof fn lemma_decl(i: InstructionModel)
    requires
        instruction_fits(i),
        !(i.kind is CustomData),
        !takes_modifiers(i.kind),
    ensures
        instruction_of(instruction_words(i)) == Some(i),
        instruction_words(i).len() >= 1,
        field(instruction_words(i)[0], 24, 0x7F) == instruction_words(i).len(),
        Opcode::spec_from_u32(field(instruction_words(i)[0], 0, 0x7FF)) == i.opcode,
{
    reveal(instruction_fits);
    let b = instruction_words(i);
    let body = body_words(i.kind);
    let o = i.opcode.spec_to_u32();
    assert(Seq::<u32>::empty() + body =~= body);
    let n = (1 + body.len()) as u32;
    let c = control_bits(i.kind);
    let w = first_word(o, c, n, 0);
    assert(b == seq![w] + body);
    let k = i.kind;
    if port_fits(i.opcode, k) {
        lemma_port(i.opcode, k, w, b);
        lemma_first_word(o, c, n, 0);
    } else if resource_fits(i.opcode, k) {
        lemma_resource(i.opcode, k, w, b);
        lemma_first_word(o, c, n, 0);
    } else {
        lemma_plain(i.opcode, k, w, b);
        lemma_first_word(o, c, n, 0);
    }
}

#[verifier::rlimit(40)]
pub proof fn lemma_modified(i: InstructionModel)
    requires
        instruction_fits(i),
        takes_modifiers(i.kind),
    ensures
        instruction_of(instruction_words(i)) == Some(i),
        instruction_words(i).len() >= 1,
        field(instruction_words(i)[0], 24, 0x7F) == instruction_words(i).len(),
        Opcode::spec_from_u32(field(instruction_words(i)[0], 0, 0x7FF)) == i.opcode,
{
    reveal(instruction_fits);
    let b = instruction_words(i);
    let body = body_words(i.kind);
    let o = i.opcode.spec_to_u32();
    let e = chained(extra_words(i.mods));
    let rest = e + body;
    let n = (1 + rest.len()) as u32;
    let c = modifier_bits(i.mods);
    let x = if e.len() > 0 {
        0x8000_0000u32
    } else {
        0u32
    };
    let w = first_word(o, c, n, x);
    assert(b == seq![w] + rest);
    lemma_near_modifiers(i.opcode, i.mods, w);
    lemma_first_word(o, c, n, x);
    assert(b.subrange(1, (1 + rest.len()) as int) =~= rest);
    lemma_stand_split(b, 1, e, body);
    lemma_far_modifiers(i.opcode, i.mods, b);
    match i.kind {
        KindModel::Generic { operands } => {
            lemma_operands(b, (1 + e.len()) as int, operands, 0);
            assert(operands.skip(0) =~= operands);
        },
        _ => {},
    }
}

/// Where the words of instruction number `k` begin.
#[verifier::opaque]
pub open spec fn start_of(is: Seq<InstructionModel>, k: int) -> int {
    (2 + instructions_words(is, k).len()) as int
}

/// Whether the words from `p` up to `q` are read as that instruction.
#[verifier::opaque]
pub open spec fn reads_between(ws: Seq<u32>, p: int, q: int, i: InstructionModel) -> bool {
    &&& 0 <= p < q <= ws.len()
    &&& instruction_len(ws, p) == q - p
    &&& instruction_of(ws.subrange(p, q)) == Some(i)
}

/// The words of an instruction are read as that instruction, and say how many
/// they are.
#[verifier::rlimit(40)]
proof fn lemma_instruction(i: InstructionModel, ws: Seq<u32>, p: int)
    requires
        instruction_fits(i),
        words_stand(ws, p, instruction_words(i)),
    ensures
        reads_between(ws, p, p + instruction_words(i).len(), i),
{
    let b = instruction_words(i);
    assert(instruction_of(b) == Some(i) && instruction_len(ws, p) == b.len() && b.len() > 0) by {
        reveal(instruction_fits);
        if i.kind is CustomData {
            lemma_data(i);
            lemma_stand_word(ws, p, b, 0);
            lemma_stand_word(ws, p, b, 1);
        } else if takes_modifiers(i.kind) {
            lemma_modified(i);
            lemma_stand_word(ws, p, b, 0);
        } else {
            lemma_decl(i);
            lemma_stand_word(ws, p, b, 0);
        }
    }
    lemma_between(ws, p, b, i);
}

proof fn lemma_between(ws: Seq<u32>, p: int, b: Seq<u32>, i: InstructionModel)
    requires
        words_stand(ws, p, b),
        instruction_of(b) == Some(i),
        instruction_len(ws, p) == b.len(),
        b.len() > 0,
    ensures
        reads_between(ws, p, p + b.len(), i),
{
    reveal(reads_between);
}

/// The words of one instruction among those of all.
proof fn lemma_instructions_words(
    is: Seq<InstructionModel>,
    n: int,
    k: int,
    b: Seq<u32>,
    p: int,
)
    requires
        0 <= k < n <= is.len(),
        words_stand(b, p, instructions_words(is, n)),
    ensures
        words_stand(b, p + instructions_words(is, k).len(), instruction_words(is[k])),
        instructions_words(is, k + 1).len() == instructions_words(is, k).len() + instruction_words(
            is[k],
        ).len(),
    decreases n,
{
    lemma_stand_split(b, p, instructions_words(is, n - 1), instruction_words(is[n - 1]));
    if k < n - 1 {
        lemma_instructions_words(is, n - 1, k, b, p);
    }
    assert(instructions_words(is, k + 1) == instructions_words(is, k) + instruction_words(is[k]));
}

/// The words of an instruction in their place.
proof fn lemma_start(ws: Seq<u32>, is: Seq<InstructionModel>, k: int)
    requires
        0 <= k < is.len(),
        words_stand(ws, 2, instructions_words(is, is.len() as int)),
    ensures
        words_stand(ws, start_of(is, k), instruction_words(is[k])),
        start_of(is, k + 1) == start_of(is, k) + instruction_words(is[k]).len(),
{
    reveal(start_of);
    lemma_instructions_words(is, is.len() as int, k, ws, 2);
}

#[verifier::rlimit(40)]
proof fn lemma_reads_between(ws: Seq<u32>, is: Seq<InstructionModel>, k: int)
    requires
        0 <= k < is.len(),
        instruction_fits(is[k]),
        words_stand(ws, 2, instructions_words(is, is.len() as int)),
    ensures
        reads_between(ws, start_of(is, k), start_of(is, k + 1), is[k]),
{
    lemma_start(ws, is, k);
    lemma_instruction(is[k], ws, start_of(is, k));
}

/// One instruction, and those behind it.
#[verifier::rlimit(40)]
proof fn lemma_instructions_step(
    ws: Seq<u32>,
    p: int,
    q: int,
    i: InstructionModel,
    rest: Seq<InstructionModel>,
)
    requires
        reads_between(ws, p, q, i),
        instructions_from(ws, q) == Some(rest),
    ensures
        instructions_from(ws, p) == Some(seq![i] + rest),
{
    reveal(reads_between);
}

/// The instructions from number `k` on are read where their words stand, up to
/// the end.
proof fn lemma_instructions(ws: Seq<u32>, is: Seq<InstructionModel>, k: int)
    requires
        0 <= k <= is.len(),
        forall|i: int|
            0 <= i < is.len() ==> reads_between(
                ws,
                start_of(is, i),
                start_of(is, i + 1),
                #[trigger] is[i],
            ),
        start_of(is, is.len() as int) == ws.len(),
    ensures
        instructions_from(ws, start_of(is, k)) == Some(is.skip(k)),
    decreases is.len() - k,
{
    if k < is.len() {
        lemma_instructions(ws, is, k + 1);
        assert(reads_between(ws, start_of(is, k), start_of(is, k + 1), is[k]));
        lemma_instructions_step(
            ws,
            start_of(is, k),
            start_of(is, k + 1),
            is[k],
            is.skip(k + 1),
        );
        assert(seq![is[k]] + is.skip(k + 1) =~= is.skip(k));
    } else {
        assert(is.skip(k) =~= Seq::empty());
    }
}

/// The parts of the first word of a program.
pub proof fn lemma_version_word(s: u32, a: u32, b: u32)
    requires
        s <= 5,
        a <= 0xF,
        b <= 0xF,
    ensures
        field((s << 16) | ((a & 0xF) << 4) | (b & 0xF), 16, 0xFFFF) == s,
        field((s << 16) | ((a & 0xF) << 4) | (b & 0xF), 4, 0xF) == a,
        field((s << 16) | ((a & 0xF) << 4) | (b & 0xF), 0, 0xF) == b,
{
    let w = (s << 16) | ((a & 0xF) << 4) | (b & 0xF);
    assert((w >> 16u32) & 0xFFFF == s && (w >> 4u32) & 0xF == a && (w >> 0u32) & 0xF == b)
        by (bit_vector)
        requires
            s <= 5,
            a <= 0xF,
            b <= 0xF,
            w == (s << 16) | ((a & 0xF) << 4) | (b & 0xF),
    ;
}

/// A program written as bytecode is read back as that very program. Left out are
/// programs that have no place in bytecode: numbers too large for their bits,
/// names that no number stands for, flags out of order, and operands or
/// instructions that lack, or have too much of, what their words announce.
pub proof fn program_bytes_read_back(p: ProgramModel)
    requires
        program_fits(p),
    ensures
        program_of(program_bytes(p), p.fourcc) == Some(p),
{
    let ws = program_words(p);
    let d = program_bytes(p);
    let is = p.instructions;
    let body = instructions_words(is, is.len() as int);
    lemma_words_bytes(ws);
    assert(ws[1] == word_at(d, 4 * 1int));
    assert(counted_words(d)->0 =~= ws);
    let s = code_of(shader_types(), p.shader_type);
    let (a, b) = (p.major_version, p.minor_version);
    lemma_name_and_number(shader_types(), p.shader_type);
    let w = ws[0];
    lemma_version_word(s, a, b);
    assert(ws.subrange(2, (2 + body.len()) as int) =~= body);
    assert forall|i: int| 0 <= i < is.len() implies reads_between(
        ws,
        start_of(is, i),
        start_of(is, i + 1),
        #[trigger] is[i],
    ) by {
        lemma_reads_between(ws, is, i);
    }
    assert(start_of(is, is.len() as int) == ws.len() && start_of(is, 0) == 2) by {
        reveal(start_of);
    }
    lemma_instructions(ws, is, 0);
    assert(is.skip(0) =~= is);
}

} // verus!
