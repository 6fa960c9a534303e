//! Programs that were read from bytecode can be written as bytecode, and read
//! back.

use vstd::prelude::*;

use crate::floats::Spellings;
use crate::grammar::shex::reading::parsed;
use crate::grammar::shex::text::program_text;
use crate::grammar::tables::{
    cb_access, dimensions, global_flags, interpolations, sampler_modes, shader_types, system_values,
    tess_domains, tess_output_prims, tess_partitionings,
};
use crate::roundtrip::bytecode::{
    data_fits, instruction_fits, kind_fits, lemma_row_words, opcode_fits, plain_fits, port_fits,
    program_bytes_read_back, program_fits, resource_fits,
};
use crate::roundtrip::bytecode_fields::{
    flag_number, flags_fit, lemma_flag, modifiers_fit, types_fit,
};
use crate::roundtrip::bytecode_operands::{
    components_fit, index_fits, indices_fit, operand_fits, operands_fit, register_fits,
};
use crate::roundtrip::decoded::{lemma_rows, named_system_value};
use crate::roundtrip::programs::{program_reads_back, valid_program};
use crate::roundtrip::tables::{is_entry, lemma_table_entry};
use crate::shex::decode::{
    components_of, counted_words, data_kind, extras_at, field, flags_of, index_at, index_kind_of,
    indices_at, instruction_len, instruction_of, instructions_from, is_input, is_output,
    is_plain_decl, is_resource_decl, modifier_of, modifiers_of, operand_at, operands_from,
    plain_kind, port_kind, program_of, resource_kind, rows_from, signed_nibble, types_of,
};
use crate::shex::encode::{
    all_operands, body_words, chained, extra_words, index_words, indices_words, instruction_words,
    instructions_words, modifier_words, operand_words, operands_words, program_bytes,
};
use crate::shex::ir::{
    IndexModel, InstructionModel, KindModel, Modifiers, Opcode, OperandModel, ProgramModel,
    RegisterType, no_modifiers,
};
use crate::shex::opcodes::opcode_values;

verus! {

// ---------------------------------------------------------------------------
// Operands
// ---------------------------------------------------------------------------

/// Masked fields are no larger than the mask.
pub proof fn lemma_mask(w: u32, s: u32, m: u32)
    ensures
        field(w, s, m) <= m,
{
    let v = w >> s;
    assert(v & m <= m) by (bit_vector);
}

proof fn lemma_components(w: u32)
    ensures
        match components_of(w) {
            Some(c) => components_fit(c),
            None => true,
        },
{
    lemma_mask(w, 4, 0xF);
    lemma_mask(w, 4, 3);
    lemma_mask(w, 6, 3);
    lemma_mask(w, 8, 3);
    lemma_mask(w, 10, 3);
}

proof fn lemma_register(w: u32)
    ensures
        register_fits(RegisterType::spec_from_u32(field(w, 12, 0xFF))),
{
    lemma_mask(w, 12, 0xFF);
}

/// An operand that was read fits, and takes the words it was read from.
proof fn lemma_operand(b: Seq<u32>, p: int)
    ensures
        match operand_at(b, p) {
            Some((op, q)) => operand_fits(op) && operand_words(op).len() == q - p && p < q
                <= b.len(),
            None => true,
        },
    decreases b.len() - p, 5int,
{
    match operand_at(b, p) {
        Some((op, _)) => {
            let w = b[p];
            lemma_components(w);
            lemma_register(w);
            lemma_mask(w, 20, 3);
            let (_, q) = modifier_of(b, p + 1, field(w, 31, 1) == 1)->0;
            lemma_indices(b, q, w, 0);
            assert(modifier_words(op).len() == q - p - 1);
        },
        None => {},
    }
}

/// The words of indices, the first apart.
proof fn lemma_indices_len(ix: IndexModel, rest: Seq<IndexModel>, n: int)
    requires
        0 <= n <= rest.len(),
    ensures
        indices_words(seq![ix] + rest, n + 1).len() == index_words(ix).len() + indices_words(
            rest,
            n,
        ).len(),
    decreases n,
{
    let all = seq![ix] + rest;
    assert(all[n] == if n == 0 {
        ix
    } else {
        rest[n - 1]
    });
    assert(indices_words(all, n + 1) == indices_words(all, n) + index_words(all[n]));
    if n > 0 {
        lemma_indices_len(ix, rest, n - 1);
        assert(indices_words(rest, n) == indices_words(rest, n - 1) + index_words(rest[n - 1]));
    } else {
        assert(indices_words(all, 0).len() == 0);
        assert(indices_words(rest, 0).len() == 0);
    }
}

/// Indices that are read one behind the other.
proof fn lemma_indices_fit(ix: IndexModel, rest: Seq<IndexModel>, k: int)
    requires
        0 <= k <= rest.len(),
    ensures
        indices_fit(seq![ix] + rest, k + 1) == indices_fit(rest, k),
    decreases rest.len() - k,
{
    let all = seq![ix] + rest;
    if k < rest.len() {
        assert(all[k + 1] == rest[k]);
        lemma_indices_fit(ix, rest, k + 1);
    }
}

proof fn lemma_indices(b: Seq<u32>, p: int, w: u32, k: int)
    requires
        0 <= k <= 3,
    ensures
        match indices_at(b, p, w, k) {
            Some((ix, q)) => indices_fit(ix, 0) && ix.len() <= 3 - k && indices_words(
                ix,
                ix.len() as int,
            ).len() == q - p && p <= q,
            None => true,
        },
    decreases b.len() - p, 10 - k,
{
    if k >= field(w, 20, 3) || k >= 3 {
    } else {
        let kind = index_kind_of(w, k);
        lemma_index(b, p, kind);
        match index_at(b, p, kind) {
            Some((ix, q)) => {
                if p < q <= b.len() {
                    lemma_indices(b, q, w, k + 1);
                    match indices_at(b, q, w, k + 1) {
                        Some((rest, _)) => {
                            lemma_indices_fit(ix, rest, 0);
                            assert((seq![ix] + rest)[0] == ix);
                            lemma_indices_len(ix, rest, rest.len() as int);
                        },
                        None => {},
                    }
                }
            },
            None => {},
        }
    }
}

proof fn lemma_index(b: Seq<u32>, p: int, kind: u32)
    ensures
        match index_at(b, p, kind) {
            Some((ix, q)) => index_fits(ix) && index_words(ix).len() == q - p,
            None => true,
        },
    decreases b.len() - p, 6int,
{
    if 0 <= p < b.len() {
        if kind == 2 {
            lemma_operand(b, p);
        } else if kind == 3 {
            lemma_operand(b, p + 1);
        }
    }
}

/// The words of operands, the first apart.
proof fn lemma_operands_len(op: OperandModel, rest: Seq<OperandModel>, n: int)
    requires
        0 <= n <= rest.len(),
    ensures
        operands_words(seq![op] + rest, n + 1).len() == operand_words(op).len() + operands_words(
            rest,
            n,
        ).len(),
    decreases n,
{
    let all = seq![op] + rest;
    assert(all[n] == if n == 0 {
        op
    } else {
        rest[n - 1]
    });
    assert(operands_words(all, n + 1) == operands_words(all, n) + operand_words(all[n]));
    if n > 0 {
        lemma_operands_len(op, rest, n - 1);
        assert(operands_words(rest, n) == operands_words(rest, n - 1) + operand_words(rest[n - 1]));
    } else {
        assert(operands_words(all, 0).len() == 0);
        assert(operands_words(rest, 0).len() == 0);
    }
}

proof fn lemma_operands(b: Seq<u32>, p: int)
    requires
        p <= b.len(),
    ensures
        match operands_from(b, p) {
            Some(ops) => operands_fit(ops) && all_operands(ops).len() == b.len() - p,
            None => true,
        },
    decreases b.len() - p,
{
    if p < b.len() {
        lemma_operand(b, p);
        match operand_at(b, p) {
            Some((op, q)) => {
                if p < q <= b.len() {
                    lemma_operands(b, q);
                    match operands_from(b, q) {
                        Some(rest) => {
                            let all = seq![op] + rest;
                            lemma_operands_len(op, rest, rest.len() as int);
                            assert forall|i: int| 0 <= i < all.len() implies operand_fits(
                                #[trigger] all[i],
                            ) by {
                                if i > 0 {
                                    assert(all[i] == rest[i - 1]);
                                }
                            }
                        },
                        None => {},
                    }
                }
            },
            None => {},
        }
    }
}

/// The words of one operand.
proof fn lemma_lone_operand(op: OperandModel)
    ensures
        all_operands(seq![op]).len() == operand_words(op).len(),
{
    reveal_with_fuel(operands_words, 2);
    assert(all_operands(seq![op]) =~= operand_words(op));
}

// ---------------------------------------------------------------------------
// Modifiers
// ---------------------------------------------------------------------------

/// How many further words the modifiers take.
pub open spec fn far_count(m: Modifiers) -> int {
    (if m.tex_offsets is Some {
        1int
    } else {
        0
    }) + (if m.resource_dim is Some {
        1int
    } else {
        0
    }) + (if m.resource_return_type is Some {
        1int
    } else {
        0
    })
}

/// A word without its highest bit.
proof fn lemma_low(w: u32)
    ensures
        w & 0x7FFF_FFFF <= 0x7FFF_FFFF,
        field(w & 0x7FFF_FFFF, 0, 0x3F) == field(w, 0, 0x3F),
{
    assert(w & 0x7FFF_FFFF <= 0x7FFF_FFFF && ((w & 0x7FFF_FFFF) >> 0u32) & 0x3F == (w >> 0u32)
        & 0x3F) by (bit_vector);
}

proof fn lemma_extras(op: Opcode, b: Seq<u32>, p: int, more: bool, m: Modifiers)
    requires
        modifiers_fit(op, m),
        0 <= p <= b.len(),
    ensures
        match extras_at(b, p, more, m) {
            Some((r, q)) => modifiers_fit(op, r) && far_count(r) <= far_count(m) + (q - p) && p
                <= q <= b.len(),
            None => true,
        },
    decreases b.len() - p,
{
    if more && p < b.len() {
        let w = b[p];
        let next = field(w, 31, 1) == 1;
        let kind = field(w, 0, 0x3F);
        lemma_low(w);
        if kind == 1 {
            lemma_mask(w, 9, 0xF);
            lemma_mask(w, 13, 0xF);
            lemma_mask(w, 17, 0xF);
            let t = [
                signed_nibble(w, 9),
                signed_nibble(w, 13),
                signed_nibble(w, 17),
            ];
            let n = Modifiers { tex_offsets: Some(t), ..m };
            lemma_extras(op, b, p + 1, next, n);
        } else if kind == 2 {
            let n = Modifiers { resource_dim: Some(w & 0x7FFF_FFFF), ..m };
            lemma_extras(op, b, p + 1, next, n);
        } else if kind == 3 {
            let n = Modifiers { resource_return_type: Some(w & 0x7FFF_FFFF), ..m };
            lemma_extras(op, b, p + 1, next, n);
        }
    }
}

proof fn lemma_near(op: Opcode, w: u32)
    ensures
        modifiers_fit(op, modifiers_of(op, w)),
        far_count(modifiers_of(op, w)) == 0,
{
    lemma_mask(w, 19, 0xF);
    lemma_mask(w, 11, 3);
    lemma_mask(w, 11, 0xF);
}

// ---------------------------------------------------------------------------
// Declarations
// ---------------------------------------------------------------------------

proof fn lemma_types(w: u32)
    ensures
        types_fit(types_of(w)),
{
    lemma_mask(w, 0, 0xF);
    lemma_mask(w, 4, 0xF);
    lemma_mask(w, 8, 0xF);
    lemma_mask(w, 12, 0xF);
}

/// Whether a system value that is named has a name of its own.
pub open spec fn system_value_known(i: InstructionModel) -> bool {
    match named_system_value(i.kind) {
        Some(s) => is_entry(system_values(), s),
        None => true,
    }
}

#[verifier::rlimit(40)]
proof fn lemma_port(op: Opcode, w: u32, b: Seq<u32>)
    requires
        is_input(op) || is_output(op),
        b.len() >= 1,
    ensures
        match port_kind(op, w, b) {
            Some(k) => (system_value_known(
                InstructionModel { opcode: op, mods: no_modifiers(), kind: k },
            ) ==> port_fits(op, k)) && 1 + body_words(k).len() <= b.len(),
            None => true,
        },
{
    lemma_operand(b, 1);
    lemma_table_entry(interpolations(), field(w, 11, 0xF));
    match operand_at(b, 1) {
        Some((o, _)) => {
            lemma_lone_operand(o);
        },
        None => {},
    }
}

#[verifier::rlimit(40)]
proof fn lemma_resource(op: Opcode, w: u32, b: Seq<u32>)
    requires
        is_resource_decl(op),
        b.len() >= 1,
    ensures
        match resource_kind(op, w, b) {
            Some(k) => resource_fits(op, k) && 1 + body_words(k).len() <= b.len(),
            None => true,
        },
{
    lemma_operand(b, 1);
    lemma_table_entry(dimensions(), field(w, 11, 0x1F));
    lemma_table_entry(sampler_modes(), field(w, 11, 0xF));
    lemma_table_entry(cb_access(), field(w, 11, 1));
    lemma_mask(w, 16, 0x7F);
    lemma_mask(w, 16, 0xFF);
    match operand_at(b, 1) {
        Some((o, p)) => {
            lemma_lone_operand(o);
            if p < b.len() {
                lemma_types(b[p]);
            }
        },
        None => {},
    }
}

/// Of two flags of the table, each has a name of its own.
proof fn lemma_flags_differ(a: int, b: int)
    requires
        0 <= a < 8,
        0 <= b < 8,
        global_flags()[a].0 == global_flags()[b].0,
    ensures
        a == b,
{
    reveal_strlit("refactoringAllowed");
    reveal_strlit("enableDoublePrecisionFloatOps");
    reveal_strlit("forceEarlyDepthStencil");
    reveal_strlit("enableRawAndStructuredBuffers");
    reveal_strlit("skipOptimization");
    reveal_strlit("enableMinPrecision");
    reveal_strlit("enable11_1DoubleExtensions");
    reveal_strlit("enable11_1ShaderExtensions");
    let t = global_flags();
    assert(t[0].0[0] == 'r' && t[0].0.len() == 18);
    assert(t[1].0[6] == 'D' && t[1].0.len() == 29);
    assert(t[2].0.len() == 22);
    assert(t[3].0[6] == 'R' && t[3].0.len() == 29);
    assert(t[4].0.len() == 16);
    assert(t[5].0[0] == 'e' && t[5].0.len() == 18);
    assert(t[6].0[10] == 'D' && t[6].0.len() == 26);
    assert(t[7].0[10] == 'S' && t[7].0.len() == 26);
}

/// The number of a flag of the table.
pub proof fn lemma_flag_number(k: int)
    requires
        0 <= k < 8,
    ensures
        is_entry(global_flags(), global_flags()[k].0),
        flag_number(global_flags()[k].0) == k,
{
    let s = global_flags()[k].0;
    assert(is_entry(global_flags(), s));
    lemma_flag(s);
    lemma_flags_differ(flag_number(s) as int, k);
}

proof fn lemma_flags(w: u32, k: int)
    requires
        0 <= k <= 8,
    ensures
        flags_fit(flags_of(w, k)),
        forall|i: int|
            0 <= i < flags_of(w, k).len() ==> flag_number(#[trigger] flags_of(w, k)[i]) >= k,
    decreases 8 - k,
{
    if k < 8 {
        lemma_flags(w, k + 1);
        lemma_flag_number(k);
        let rest = flags_of(w, k + 1);
        let all = flags_of(w, k);
        let name = global_flags()[k].0;
        if field(w, (11 + k) as u32, 1) == 1 {
            assert(all == seq![name] + rest);
            assert forall|i: int| 0 <= i < all.len() implies is_entry(
                global_flags(),
                #[trigger] all[i],
            ) && flag_number(all[i]) >= k by {
                if i > 0 {
                    assert(all[i] == rest[i - 1]);
                }
            }
            assert forall|i: int, j: int| 0 <= i < j < all.len() implies flag_number(
                #[trigger] all[i],
            ) < flag_number(#[trigger] all[j]) by {
                assert(all[j] == rest[j - 1]);
                if i > 0 {
                    assert(all[i] == rest[i - 1]);
                }
            }
        } else {
            assert(all == rest);
        }
    }
}

#[verifier::rlimit(40)]
proof fn lemma_plain(op: Opcode, w: u32, b: Seq<u32>)
    requires
        is_plain_decl(op),
        b.len() >= 1,
    ensures
        match plain_kind(op, w, b) {
            Some(k) => plain_fits(op, k) && 1 + body_words(k).len() <= b.len(),
            None => true,
        },
{
    lemma_flags(w, 0);
    lemma_mask(w, 11, 0x3F);
    lemma_table_entry(tess_domains(), field(w, 11, 3));
    lemma_table_entry(tess_partitionings(), field(w, 11, 7));
    lemma_table_entry(tess_output_prims(), field(w, 11, 7));
}

proof fn lemma_data(w: u32, b: Seq<u32>)
    requires
        b.len() <= 0xffff_ffff,
    ensures
        match data_kind(w, b) {
            Some(k) => data_fits(k),
            None => true,
        },
        match data_kind(w, b) {
            Some(KindModel::CustomData { raw_dword_count, .. }) => raw_dword_count == b.len(),
            _ => data_kind(w, b) is None,
        },
{
    lemma_mask(w, 11, 0x1F_FFFF);
    if b.len() >= 2 && (b.len() - 2) % 4 == 0 {
        lemma_rows(b, 2);
        let rows = rows_from(b, 2);
        lemma_row_words(rows, rows.len() as int);
    }
}

// ---------------------------------------------------------------------------
// Instructions
// ---------------------------------------------------------------------------

/// An instruction that was read fits, and takes no more words than it was read
/// from.
#[verifier::rlimit(40)]
proof fn lemma_instruction(b: Seq<u32>)
    requires
        b.len() <= 0xffff_ffff,
        b.len() > 0,
    ensures
        match instruction_of(b) {
            Some(i) => system_value_known(i) ==> opcode_fits(i.opcode) && kind_fits(i)
                && instruction_words(i).len() <= b.len() && (i.kind is CustomData == (i.opcode
                == Opcode::CustomData)) && i.opcode == Opcode::spec_from_u32(
                field(b[0], 0, 0x7FF),
            ),
            None => true,
        },
{
    let w = b[0];
    let v = field(w, 0, 0x7FF);
    let op = Opcode::spec_from_u32(v);
    opcode_values(v);
    lemma_mask(w, 0, 0x7FF);
    if op == Opcode::CustomData {
        lemma_data(w, b);
    } else if is_input(op) || is_output(op) {
        lemma_port(op, w, b);
        lemma_bare_len(op, port_kind(op, w, b));
    } else if is_resource_decl(op) {
        lemma_resource(op, w, b);
        lemma_bare_len(op, resource_kind(op, w, b));
    } else if is_plain_decl(op) {
        lemma_plain(op, w, b);
        lemma_bare_len(op, plain_kind(op, w, b));
    } else {
        lemma_near(op, w);
        let more = field(w, 31, 1) == 1;
        lemma_extras(op, b, 1, more, modifiers_of(op, w));
        match extras_at(b, 1, more, modifiers_of(op, w)) {
            Some((m, p)) => {
                lemma_operands(b, p);
                assert(chained(extra_words(m)).len() == far_count(m));
                lemma_modified_len(instruction_of(b));
            },
            None => {},
        }
    }
}

/// The number of words of a declaration.
proof fn lemma_bare_len(op: Opcode, kind: Option<KindModel>)
    ensures
        match kind {
            Some(k) => k is CustomData || k is Generic || k is HsPhase || instruction_words(
                InstructionModel { opcode: op, mods: no_modifiers(), kind: k },
            ).len() == 1 + body_words(k).len(),
            None => true,
        },
{
}

/// The number of words of an instruction with modifiers.
proof fn lemma_modified_len(i: Option<InstructionModel>)
    ensures
        match i {
            Some(i) => !(i.kind is Generic || i.kind is HsPhase) || instruction_words(i).len() == 1
                + extra_words(i.mods).len() + body_words(i.kind).len(),
            None => true,
        },
{
}

/// Whether the words from `p` up to `q` hold an instruction that fits, and whose
/// words are no more than those.
#[verifier::opaque]
pub open spec fn instruction_kept(i: InstructionModel, p: int, q: int) -> bool {
    instruction_fits(i) && instruction_words(i).len() <= q - p
}

#[verifier::rlimit(40)]
proof fn lemma_kept(ws: Seq<u32>, p: int)
    requires
        0 <= p < ws.len(),
        ws.len() <= 0xffff_ffff,
    ensures
        ({
            let n = instruction_len(ws, p);
            n <= 0 || p + n > ws.len() || match instruction_of(ws.subrange(p, p + n)) {
                Some(i) => system_value_known(i) ==> instruction_kept(i, p, p + n),
                None => true,
            }
        }),
{
    reveal(instruction_kept);
    reveal(instruction_fits);
    let n = instruction_len(ws, p);
    if 0 < n && p + n <= ws.len() {
        let b = ws.subrange(p, p + n);
        assert(b[0] == ws[p]);
        lemma_instruction(b);
        lemma_mask(ws[p], 24, 0x7F);
    }
}

/// The words of instructions, the first apart.
proof fn lemma_instructions_len(i: InstructionModel, rest: Seq<InstructionModel>, n: int)
    requires
        0 <= n <= rest.len(),
    ensures
        instructions_words(seq![i] + rest, n + 1).len() == instruction_words(i).len()
            + instructions_words(rest, n).len(),
    decreases n,
{
    let all = seq![i] + rest;
    assert(all[n] == if n == 0 {
        i
    } else {
        rest[n - 1]
    });
    assert(instructions_words(all, n + 1) == instructions_words(all, n) + instruction_words(all[n]));
    if n > 0 {
        lemma_instructions_len(i, rest, n - 1);
        assert(instructions_words(rest, n) == instructions_words(rest, n - 1) + instruction_words(
            rest[n - 1],
        ));
    } else {
        assert(instructions_words(all, 0).len() == 0);
        assert(instructions_words(rest, 0).len() == 0);
    }
}

/// Whether all instructions fit, and take so many words at most.
#[verifier::opaque]
pub open spec fn instructions_kept(is: Seq<InstructionModel>, n: int) -> bool {
    &&& forall|k: int| 0 <= k < is.len() ==> instruction_fits(#[trigger] is[k])
    &&& instructions_words(is, is.len() as int).len() <= n
}

proof fn lemma_kept_step(i: InstructionModel, rest: Seq<InstructionModel>, p: int, q: int, n: int)
    requires
        instruction_kept(i, p, q),
        instructions_kept(rest, n - q),
    ensures
        instructions_kept(seq![i] + rest, n - p),
{
    reveal(instruction_kept);
    reveal(instructions_kept);
    let all = seq![i] + rest;
    lemma_instructions_len(i, rest, rest.len() as int);
    assert forall|k: int| 0 <= k < all.len() implies instruction_fits(#[trigger] all[k]) by {
        if k > 0 {
            assert(all[k] == rest[k - 1]);
        }
    }
}

#[verifier::rlimit(40)]
proof fn lemma_instructions(ws: Seq<u32>, p: int)
    requires
        0 <= p <= ws.len(),
        ws.len() <= 0xffff_ffff,
    ensures
        match instructions_from(ws, p) {
            Some(is) => (forall|k: int| 0 <= k < is.len() ==> system_value_known(#[trigger] is[k]))
                ==> instructions_kept(is, ws.len() - p),
            None => true,
        },
    decreases ws.len() - p,
{
    if p < ws.len() {
        let n = instruction_len(ws, p);
        lemma_kept(ws, p);
        if 0 < n && p + n <= ws.len() {
            let b = ws.subrange(p, p + n);
            lemma_instructions(ws, p + n);
            match (instruction_of(b), instructions_from(ws, p + n)) {
                (Some(i), Some(rest)) => {
                    let all = seq![i] + rest;
                    if forall|k: int| 0 <= k < all.len() ==> system_value_known(#[trigger] all[k]) {
                        assert(system_value_known(all[0]));
                        assert forall|k: int| 0 <= k < rest.len() implies system_value_known(
                            #[trigger] rest[k],
                        ) by {
                            assert(all[k + 1] == rest[k]);
                        }
                        lemma_kept_step(i, rest, p, p + n, ws.len() as int);
                    }
                },
                _ => {},
            }
        }
    } else {
        reveal(instructions_kept);
    }
}

/// A program that was read from bytecode is written to bytecode that is read as
/// that very program, whatever else the first bytes held. Left out are system
/// values without a name, the number of which is not kept.
pub proof fn recoded_program_reads_back(d: Seq<u8>, fourcc: Seq<u8>)
    requires
        program_of(d, fourcc) is Some,
        forall|k: int|
            0 <= k < program_of(d, fourcc)->0.instructions.len() ==> system_value_known(
                #[trigger] program_of(d, fourcc)->0.instructions[k],
            ),
    ensures
        program_of(program_bytes(program_of(d, fourcc)->0), fourcc) == program_of(d, fourcc),
{
    let p = program_of(d, fourcc)->0;
    let ws = counted_words(d)->0;
    lemma_table_entry(shader_types(), field(ws[0], 16, 0xFFFF));
    lemma_mask(ws[0], 4, 0xF);
    lemma_mask(ws[0], 0, 0xF);
    let is = p.instructions;
    assert(instructions_from(ws, 2) == Some(is));
    assert forall|k: int| 0 <= k < is.len() implies system_value_known(#[trigger] is[k]) by {
        assert(p.instructions[k] == is[k]);
    }
    lemma_instructions(ws, 2);
    assert(program_fits(p)) by {
        reveal(instructions_kept);
    }
    program_bytes_read_back(p);
}

/// Bytecode that was written from a program gives, by way of text, the very same
/// bytes again.
pub proof fn bytecode_survives_text(p: ProgramModel, ft: Spellings)
    requires
        program_fits(p),
        valid_program(p),
    ensures
        ({
            let q = program_of(program_bytes(p), p.fourcc)->0;
            let r = parsed(program_text(q, ft), ft);
            &&& r is Ok
            &&& program_bytes(r->Ok_0) == program_bytes(p)
        }),
{
    program_bytes_read_back(p);
    program_reads_back(p, ft);
}

} // verus!
