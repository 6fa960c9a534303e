//! Operands in bytecode read back.

use vstd::prelude::*;

use crate::shex::decode::{
    components_of, field, immediate_count, index_at, index_kind_of, indices_at, modifier_of,
    operand_at, operands_from, word,
};
use crate::shex::encode::{
    component_bits, index_kind, index_words, indices_words, is_modified, kind_at, modifier_words,
    operand_word, operand_words, operands_words,
};
use crate::shex::ir::{ComponentSelect, IndexModel, OperandModel, RegisterType};

verus! {

// ---------------------------------------------------------------------------
// What fits
// ---------------------------------------------------------------------------

/// Whether the components fit their bits.
pub open spec fn components_fit(c: ComponentSelect) -> bool {
    match c {
        ComponentSelect::Mask(m) => m < 16,
        ComponentSelect::Swizzle(s) => s[0] < 4 && s[1] < 4 && s[2] < 4 && s[3] < 4,
        ComponentSelect::Scalar(c) => c < 4,
        _ => true,
    }
}

/// Whether the register file is the one that its number stands for, and the
/// number fits its bits.
pub open spec fn register_fits(r: RegisterType) -> bool {
    RegisterType::spec_from_u32(r.spec_to_u32()) == r && r.spec_to_u32() <= 0xFF
}

/// Whether bytecode can hold an operand: it has three indices at most, and as
/// many immediate values as its register file and components tell.
pub open spec fn operand_fits(op: OperandModel) -> bool
    decreases op, 1int,
{
    &&& register_fits(op.reg_type)
    &&& components_fit(op.components)
    &&& op.indices.len() <= 3
    &&& indices_fit(op.indices, 0)
    &&& op.immediate_values.len() == immediate_count(op.reg_type, op.components)
}

/// Whether that holds of the operands in the indices from number `k` on.
pub open spec fn indices_fit(ix: Seq<IndexModel>, k: int) -> bool
    decreases ix, ix.len() - k,
{
    k < 0 || k >= ix.len() || (index_fits(ix[k]) && indices_fit(ix, k + 1))
}

/// Whether that holds of the operand in an index.
pub open spec fn index_fits(ix: IndexModel) -> bool
    decreases ix, 0int,
{
    match ix {
        IndexModel::Relative(op) => operand_fits(*op),
        IndexModel::RelativePlusImm(_, op) => operand_fits(*op),
        _ => true,
    }
}

/// Whether every operand fits.
pub open spec fn operands_fit(ops: Seq<OperandModel>) -> bool {
    forall|i: int| 0 <= i < ops.len() ==> operand_fits(#[trigger] ops[i])
}

// ---------------------------------------------------------------------------
// Words in place
// ---------------------------------------------------------------------------

/// Whether the words `ws` stand at position `p`.
pub open spec fn words_stand(b: Seq<u32>, p: int, ws: Seq<u32>) -> bool {
    0 <= p && p + ws.len() <= b.len() && b.subrange(p, p + ws.len()) == ws
}

/// Words that stand one behind the other.
pub proof fn lemma_stand_split(b: Seq<u32>, p: int, x: Seq<u32>, y: Seq<u32>)
    requires
        words_stand(b, p, x + y),
    ensures
        words_stand(b, p, x),
        words_stand(b, p + x.len(), y),
{
    let s = x + y;
    assert(b.subrange(p, p + x.len()) =~= s.subrange(0, x.len() as int));
    assert(s.subrange(0, x.len() as int) =~= x);
    let q = p + x.len();
    assert(b.subrange(q, q + y.len()) =~= s.subrange(x.len() as int, s.len() as int));
    assert(s.subrange(x.len() as int, s.len() as int) =~= y);
}

/// A word that stands at the beginning.
pub proof fn lemma_stand_word(b: Seq<u32>, p: int, ws: Seq<u32>, k: int)
    requires
        words_stand(b, p, ws),
        0 <= k < ws.len(),
    ensures
        word(b, p + k) == Some(ws[k]),
{
    assert(b.subrange(p, p + ws.len())[k] == b[p + k]);
}

// ---------------------------------------------------------------------------
// The operand word
// ---------------------------------------------------------------------------

/// The component bits alone.
proof fn lemma_component_bits(c: ComponentSelect)
    requires
        components_fit(c),
    ensures
        component_bits(c) <= 0xFFF,
        components_of(component_bits(c)) == Some(c),
{
    let w = component_bits(c);
    match c {
        ComponentSelect::ZeroComponent => {
            assert((0u32 >> 0u32) & 3 == 0) by (bit_vector);
        },
        ComponentSelect::OneComponent => {
            assert((1u32 >> 0u32) & 3 == 1) by (bit_vector);
        },
        ComponentSelect::Mask(m) => {
            assert(w == 2u32 | (((m & 0xF) as u32) << 4));
            assert(w <= 0xFFF && (w >> 0u32) & 3 == 2 && (w >> 2u32) & 3 == 0 && (((w >> 4u32)
                & 0xF) as u8) == m) by (bit_vector)
                requires
                    m < 16,
                    w == 2u32 | (((m & 0xF) as u32) << 4),
            ;
        },
        ComponentSelect::Swizzle(s) => {
            let (s0, s1, s2, s3) = (s[0], s[1], s[2], s[3]);
            assert(w <= 0xFFF && (w >> 0u32) & 3 == 2 && (w >> 2u32) & 3 == 1 && (((w >> 4u32)
                & 3) as u8) == s0 && (((w >> 6u32) & 3) as u8) == s1 && (((w >> 8u32) & 3) as u8)
                == s2 && (((w >> 10u32) & 3) as u8) == s3) by (bit_vector)
                requires
                    s0 < 4,
                    s1 < 4,
                    s2 < 4,
                    s3 < 4,
                    w == 6u32 | (((s0 & 3) as u32) << 4) | (((s1 & 3) as u32) << 6) | (((s2
                        & 3) as u32) << 8) | (((s3 & 3) as u32) << 10),
            ;
            let t = [
                field(w, 4, 3) as u8,
                field(w, 6, 3) as u8,
                field(w, 8, 3) as u8,
                field(w, 10, 3) as u8,
            ];
            assert(t@ =~= s@);
            assert(t =~= s);
        },
        ComponentSelect::Scalar(m) => {
            assert(w <= 0xFFF && (w >> 0u32) & 3 == 2 && (w >> 2u32) & 3 == 2 && (((w >> 4u32)
                & 3) as u8) == m) by (bit_vector)
                requires
                    m < 4,
                    w == 10u32 | (((m & 3) as u32) << 4),
            ;
        },
    }
}

/// The fields of an operand word.
pub proof fn lemma_operand_word(op: OperandModel)
    requires
        register_fits(op.reg_type),
        components_fit(op.components),
        op.indices.len() <= 3,
    ensures
        ({
            let w = operand_word(op);
            &&& components_of(w) == Some(op.components)
            &&& field(w, 12, 0xFF) == op.reg_type.spec_to_u32()
            &&& field(w, 20, 3) == op.indices.len()
            &&& index_kind_of(w, 0) == kind_at(op.indices, 0)
            &&& index_kind_of(w, 1) == kind_at(op.indices, 1)
            &&& index_kind_of(w, 2) == kind_at(op.indices, 2)
            &&& (field(w, 31, 1) == 1) == is_modified(op)
        }),
{
    lemma_component_bits(op.components);
    let c = component_bits(op.components);
    let r = op.reg_type.spec_to_u32();
    let n = op.indices.len() as u32;
    let k0 = kind_at(op.indices, 0);
    let k1 = kind_at(op.indices, 1);
    let k2 = kind_at(op.indices, 2);
    let e = if is_modified(op) {
        0x8000_0000u32
    } else {
        0u32
    };
    let w = operand_word(op);
    assert((w >> 0u32) & 3 == (c >> 0u32) & 3 && (w >> 2u32) & 3 == (c >> 2u32) & 3 && (w >> 4u32)
        & 0xF == (c >> 4u32) & 0xF && (w >> 4u32) & 3 == (c >> 4u32) & 3 && (w >> 6u32) & 3 == (c
        >> 6u32) & 3 && (w >> 8u32) & 3 == (c >> 8u32) & 3 && (w >> 10u32) & 3 == (c >> 10u32) & 3
        && (w >> 12u32) & 0xFF == r && (w >> 20u32) & 3 == n && (w >> 22u32) & 7 == k0 && (w
        >> 25u32) & 7 == k1 && (w >> 28u32) & 7 == k2 && ((w >> 31u32) & 1 == 1) == (e != 0))
        by (bit_vector)
        requires
            c <= 0xFFF,
            r <= 0xFF,
            n <= 3,
            k0 <= 3,
            k1 <= 3,
            k2 <= 3,
            e == 0 || e == 0x8000_0000u32,
            w == c | ((r & 0xFF) << 12) | ((n & 3) << 20) | (k0 << 22) | (k1 << 25) | (k2 << 28) | e,
    ;
}

/// The modifier's word.
proof fn lemma_modifier(b: Seq<u32>, p: int, op: OperandModel)
    requires
        words_stand(b, p, modifier_words(op)),
    ensures
        modifier_of(b, p, is_modified(op)) == Some(
            ((op.negate, op.abs), p + modifier_words(op).len()),
        ),
{
    if is_modified(op) {
        lemma_stand_word(b, p, modifier_words(op), 0);
    }
}

// ---------------------------------------------------------------------------
// Operands
// ---------------------------------------------------------------------------

/// The words of one index among those of all.
proof fn lemma_indices_words(ix: Seq<IndexModel>, n: int, k: int, b: Seq<u32>, p: int)
    requires
        0 <= k < n <= ix.len(),
        words_stand(b, p, indices_words(ix, n)),
    ensures
        words_stand(b, p + indices_words(ix, k).len(), index_words(ix[k])),
        indices_words(ix, k + 1).len() == indices_words(ix, k).len() + index_words(ix[k]).len(),
    decreases n,
{
    lemma_stand_split(b, p, indices_words(ix, n - 1), index_words(ix[n - 1]));
    if k < n - 1 {
        lemma_indices_words(ix, n - 1, k, b, p);
    }
    assert(indices_words(ix, k + 1) == indices_words(ix, k) + index_words(ix[k]));
}

/// An operand has a word at least.
pub proof fn lemma_operand_words_len(op: OperandModel)
    ensures
        operand_words(op).len() >= 1,
        operand_words(op).len() == 1 + modifier_words(op).len() + indices_words(
            op.indices,
            op.indices.len() as int,
        ).len() + op.immediate_values.len(),
{
}

/// An operand is read where its words stand.
#[verifier::rlimit(40)]
pub proof fn lemma_operand(b: Seq<u32>, p: int, op: OperandModel)
    requires
        operand_fits(op),
        words_stand(b, p, operand_words(op)),
    ensures
        operand_at(b, p) == Some((op, p + operand_words(op).len())),
    decreases op, 1int,
{
    let w = operand_word(op);
    let m = modifier_words(op);
    let n = op.indices.len() as int;
    let iw = indices_words(op.indices, n);
    lemma_stand_split(b, p, seq![w] + m + iw, op.immediate_values);
    lemma_stand_split(b, p, seq![w] + m, iw);
    lemma_stand_split(b, p, seq![w], m);
    lemma_stand_word(b, p, seq![w], 0);
    lemma_operand_word(op);
    lemma_modifier(b, p + 1, op);
    let q = p + 1 + m.len();
    lemma_indices(b, q, q, w, op.indices, 0);
    assert(op.indices.skip(0) =~= op.indices);
    let r = q + iw.len();
    assert(b.subrange(r, r + op.immediate_values.len()) == op.immediate_values);
}

/// The indices from number `k` on are read where their words stand.
#[verifier::rlimit(40)]
proof fn lemma_indices(b: Seq<u32>, start: int, p: int, w: u32, ix: Seq<IndexModel>, k: int)
    requires
        0 <= k <= ix.len() <= 3,
        indices_fit(ix, k),
        field(w, 20, 3) == ix.len(),
        index_kind_of(w, 0) == kind_at(ix, 0),
        index_kind_of(w, 1) == kind_at(ix, 1),
        index_kind_of(w, 2) == kind_at(ix, 2),
        words_stand(b, start, indices_words(ix, ix.len() as int)),
        p == start + indices_words(ix, k).len(),
    ensures
        indices_at(b, p, w, k) == Some(
            (ix.skip(k), start + indices_words(ix, ix.len() as int).len()),
        ),
    decreases ix, ix.len() - k,
{
    if k < ix.len() {
        lemma_indices_words(ix, ix.len() as int, k, b, start);
        lemma_index(b, p, ix[k]);
        let q = p + index_words(ix[k]).len();
        lemma_indices(b, start, q, w, ix, k + 1);
        assert(index_kind_of(w, k) == index_kind(ix[k]));
        lemma_index_len(ix[k]);
        assert(seq![ix[k]] + ix.skip(k + 1) =~= ix.skip(k));
    } else {
        assert(ix.skip(k) =~= Seq::empty());
    }
}

/// An index has a word at least.
proof fn lemma_index_len(ix: IndexModel)
    ensures
        index_words(ix).len() >= 1,
{
    match ix {
        IndexModel::Relative(op) => {
            lemma_operand_words_len(*op);
        },
        IndexModel::RelativePlusImm(_, op) => {
            lemma_operand_words_len(*op);
        },
        _ => {},
    }
}

/// An index is read where its words stand.
proof fn lemma_index(b: Seq<u32>, p: int, ix: IndexModel)
    requires
        index_fits(ix),
        words_stand(b, p, index_words(ix)),
    ensures
        index_at(b, p, index_kind(ix)) == Some((ix, p + index_words(ix).len())),
    decreases ix, 0int,
{
    lemma_index_len(ix);
    lemma_stand_word(b, p, index_words(ix), 0);
    match ix {
        IndexModel::Imm32(_) => {},
        IndexModel::Imm64(v) => {
            lemma_stand_word(b, p, index_words(ix), 1);
            let hi = (v >> 32) as u32;
            let lo = (v & 0xffff_ffff) as u32;
            assert(((hi as u64) << 32) | (lo as u64) == v) by (bit_vector)
                requires
                    hi == (v >> 32) as u32,
                    lo == (v & 0xffff_ffff) as u32,
            ;
        },
        IndexModel::Relative(op) => {
            lemma_operand(b, p, *op);
        },
        IndexModel::RelativePlusImm(v, op) => {
            lemma_stand_split(b, p, seq![v], operand_words(*op));
            lemma_operand(b, p + 1, *op);
        },
    }
}

/// The operands from number `k` on are read where their words stand, up to the
/// end.
pub proof fn lemma_operands(b: Seq<u32>, start: int, ops: Seq<OperandModel>, k: int)
    requires
        0 <= k <= ops.len(),
        operands_fit(ops),
        words_stand(b, start, operands_words(ops, ops.len() as int)),
        start + operands_words(ops, ops.len() as int).len() == b.len(),
    ensures
        operands_from(b, start + operands_words(ops, k).len()) == Some(ops.skip(k)),
    decreases ops.len() - k,
{
    let p = start + operands_words(ops, k).len();
    if k < ops.len() {
        lemma_operands_words(ops, ops.len() as int, k, b, start);
        lemma_operand(b, p, ops[k]);
        lemma_operand_words_len(ops[k]);
        lemma_operands(b, start, ops, k + 1);
        assert(seq![ops[k]] + ops.skip(k + 1) =~= ops.skip(k));
    } else {
        assert(ops.skip(k) =~= Seq::empty());
    }
}

/// The words of one operand among those of all.
proof fn lemma_operands_words(ops: Seq<OperandModel>, n: int, k: int, b: Seq<u32>, p: int)
    requires
        0 <= k < n <= ops.len(),
        words_stand(b, p, operands_words(ops, n)),
    ensures
        words_stand(b, p + operands_words(ops, k).len(), operand_words(ops[k])),
        operands_words(ops, k + 1).len() == operands_words(ops, k).len() + operand_words(
            ops[k],
        ).len(),
    decreases n,
{
    lemma_stand_split(b, p, operands_words(ops, n - 1), operand_words(ops[n - 1]));
    if k < n - 1 {
        lemma_operands_words(ops, n - 1, k, b, p);
    }
    assert(operands_words(ops, k + 1) == operands_words(ops, k) + operand_words(ops[k]));
}

} // verus!
