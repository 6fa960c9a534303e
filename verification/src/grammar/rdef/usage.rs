//! Which constant-buffer variables a program reads.

use vstd::prelude::*;

use crate::shex::ir::{
    ComponentSelect, IndexModel, Operand, OperandIndex, OperandModel, Program, ProgramModel,
    RegisterType, index_models, kind_operands, lemma_operand_model, operand_models,
};

verus! {

/// Whether the four bytes from `base` on meet the `size` bytes from `offset` on.
pub open spec fn meets(base: int, offset: u32, size: u32) -> bool {
    size > 0 && base < offset + size && offset < base + 4
}

/// Whether one of the components of register `v` that `c` selects meets the
/// bytes.
pub open spec fn components_meet(c: ComponentSelect, v: u32, offset: u32, size: u32) -> bool {
    match c {
        ComponentSelect::Swizzle(s) => meets(v * 16 + s[0] * 4, offset, size) || meets(
            v * 16 + s[1] * 4,
            offset,
            size,
        ) || meets(v * 16 + s[2] * 4, offset, size) || meets(v * 16 + s[3] * 4, offset, size),
        ComponentSelect::Scalar(i) => meets(v * 16 + i * 4, offset, size),
        _ => meets(v * 16, offset, size) || meets(v * 16 + 4, offset, size) || meets(
            v * 16 + 8,
            offset,
            size,
        ) || meets(v * 16 + 12, offset, size),
    }
}

/// Whether the operand itself reads the bytes of constant buffer `reg`: those it
/// names, or an array that begins among them, or all where the index is open.
pub open spec fn reads_directly(op: OperandModel, reg: u32, offset: u32, size: u32) -> bool {
    &&& op.reg_type == RegisterType::ConstantBuffer
    &&& op.indices.len() >= 2
    &&& op.indices[0] == IndexModel::Imm32(reg)
    &&& match op.indices[1] {
        IndexModel::Imm32(v) => components_meet(op.components, v, offset, size),
        IndexModel::RelativePlusImm(base, _) => offset <= base * 16 < offset + size,
        _ => true,
    }
}

/// Whether the operand, or one that an index of it holds, reads the bytes.
pub open spec fn operand_reads(op: OperandModel, reg: u32, offset: u32, size: u32) -> bool
    decreases op, 1int,
{
    reads_directly(op, reg, offset, size) || indices_read(
        op.indices,
        op.indices.len() as int,
        reg,
        offset,
        size,
    )
}

/// Whether one of the first `n` indices reads the bytes.
pub open spec fn indices_read(ix: Seq<IndexModel>, n: int, reg: u32, offset: u32, size: u32) -> bool
    decreases ix, n,
{
    if n <= 0 || n > ix.len() {
        false
    } else {
        indices_read(ix, n - 1, reg, offset, size) || match ix[n - 1] {
            IndexModel::Relative(o) => operand_reads(*o, reg, offset, size),
            IndexModel::RelativePlusImm(_, o) => operand_reads(*o, reg, offset, size),
            _ => false,
        }
    }
}

/// Whether one of the first `n` operands reads the bytes.
pub open spec fn operands_read(
    ops: Seq<OperandModel>,
    n: int,
    reg: u32,
    offset: u32,
    size: u32,
) -> bool {
    exists|j: int| 0 <= j < n && operand_reads(#[trigger] ops[j], reg, offset, size)
}

/// Whether the program reads a byte of the `size` bytes from `offset` on of
/// constant buffer `reg`.
pub open spec fn program_reads(p: ProgramModel, reg: u32, offset: u32, size: u32) -> bool {
    exists|i: int|
        0 <= i < p.instructions.len() && operands_read(
            kind_operands((#[trigger] p.instructions[i]).kind),
            kind_operands(p.instructions[i].kind).len() as int,
            reg,
            offset,
            size,
        )
}

fn meet(base: u64, offset: u32, size: u32) -> (r: bool)
    requires
        base < 0x100_0000_0000,
    ensures
        r == meets(base as int, offset, size),
{
    size > 0 && base < offset as u64 + size as u64 && (offset as u64) < base + 4
}

fn component_meet(c: &ComponentSelect, v: u32, offset: u32, size: u32) -> (r: bool)
    ensures
        r == components_meet(*c, v, offset, size),
{
    let b: u64 = v as u64 * 16;
    match c {
        ComponentSelect::Swizzle(s) => meet(b + s[0] as u64 * 4, offset, size) || meet(
            b + s[1] as u64 * 4,
            offset,
            size,
        ) || meet(b + s[2] as u64 * 4, offset, size) || meet(b + s[3] as u64 * 4, offset, size),
        ComponentSelect::Scalar(i) => meet(b + *i as u64 * 4, offset, size),
        _ => meet(b, offset, size) || meet(b + 4, offset, size) || meet(b + 8, offset, size)
            || meet(b + 12, offset, size),
    }
}

fn direct_read(op: &Operand, reg: u32, offset: u32, size: u32) -> (r: bool)
    ensures
        r == reads_directly(op.model(), reg, offset, size),
{
    proof {
        lemma_operand_model(*op);
    }
    if op.reg_type != RegisterType::ConstantBuffer || op.indices.len() < 2 {
        return false;
    }
    assert(op.model().indices[0] == op.indices@[0].model());
    assert(op.model().indices[1] == op.indices@[1].model());
    let first = match &op.indices[0] {
        OperandIndex::Imm32(v) => *v == reg,
        _ => false,
    };
    first && match &op.indices[1] {
        OperandIndex::Imm32(v) => component_meet(&op.components, *v, offset, size),
        OperandIndex::RelativePlusImm(base, _) => {
            let b: u64 = *base as u64 * 16;
            offset as u64 <= b && b < offset as u64 + size as u64
        },
        _ => true,
    }
}

/// Whether the operand, or one that an index of it holds, reads the bytes.
fn collect_cb_reads(op: &Operand, reg: u32, offset: u32, size: u32) -> (r: bool)
    ensures
        r == operand_reads(op.model(), reg, offset, size),
    decreases op, 1int,
{
    proof {
        lemma_operand_model(*op);
    }
    direct_read(op, reg, offset, size) || index_reads(&op.indices, reg, offset, size)
}

fn index_reads(indices: &Vec<OperandIndex>, reg: u32, offset: u32, size: u32) -> (r: bool)
    ensures
        r == indices_read(index_models(indices@), indices@.len() as int, reg, offset, size),
    decreases indices, 0int,
{
    let ghost ix = index_models(indices@);
    let mut found = false;
    let mut i: usize = 0;
    while i < indices.len()
        invariant
            ix == index_models(indices@),
            i <= indices.len(),
            found == indices_read(ix, i as int, reg, offset, size),
        decreases indices.len() - i,
    {
        assert(ix[i as int] == indices@[i as int].model());
        assert(decreases_to!(indices => indices@[i as int]));
        let here = match &indices[i] {
            OperandIndex::Relative(o) => collect_cb_reads(o, reg, offset, size),
            OperandIndex::RelativePlusImm(_, o) => collect_cb_reads(o, reg, offset, size),
            _ => false,
        };
        found = found || here;
        i += 1;
    }
    found
}

fn operand_list_reads(ops: &[Operand], reg: u32, offset: u32, size: u32) -> (r: bool)
    ensures
        r == operands_read(operand_models(ops@), ops@.len() as int, reg, offset, size),
{
    let ghost ms = operand_models(ops@);
    let mut j: usize = 0;
    while j < ops.len()
        invariant
            ms == operand_models(ops@),
            j <= ops.len(),
            !operands_read(ms, j as int, reg, offset, size),
        decreases ops.len() - j,
    {
        assert(ms[j as int] == ops@[j as int].model());
        if collect_cb_reads(&ops[j], reg, offset, size) {
            assert(operand_reads(ms[j as int], reg, offset, size));
            return true;
        }
        j += 1;
    }
    false
}

/// Whether the program reads a byte of the `size` bytes from `offset` on of
/// constant buffer `reg`.
pub fn var_used(p: &Program, reg: u32, offset: u32, size: u32) -> (r: bool)
    ensures
        r == program_reads(p.model(), reg, offset, size),
{
    let ghost m = p.model();
    let mut i: usize = 0;
    while i < p.instructions.len()
        invariant
            m == p.model(),
            i <= p.instructions.len(),
            forall|k: int|
                0 <= k < i ==> !operands_read(
                    kind_operands((#[trigger] m.instructions[k]).kind),
                    kind_operands(m.instructions[k].kind).len() as int,
                    reg,
                    offset,
                    size,
                ),
        decreases p.instructions.len() - i,
    {
        assert(m.instructions[i as int] == p.instructions@[i as int].model());
        let ops = p.instructions[i].operands();
        assert(operand_models(ops@).len() == ops@.len());
        if operand_list_reads(ops, reg, offset, size) {
            return true;
        }
        i += 1;
    }
    false
}

} // verus!
