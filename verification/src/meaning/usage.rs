//! Which variables count as used.

use vstd::prelude::*;

use crate::chunks::rdef::{BindingModel, RdefModel};
use crate::grammar::rdef::decode::{HlslState, all_buffers, completed, register_of};
use crate::grammar::rdef::usage::{
    components_meet, indices_read, meets, operand_reads, operands_read, program_reads,
    reads_directly,
};
use crate::shex::ir::{
    ComponentSelect, IndexModel, OperandModel, ProgramModel, RegisterType, kind_operands,
};

verus! {

/// Whether a selection takes component `k`: by any of the four places of a swizzle,
/// as the one of a scalar, or as one of all four.
pub open spec fn takes(c: ComponentSelect, k: int) -> bool {
    match c {
        ComponentSelect::Swizzle(s) => exists|n: int| 0 <= n < 4 && #[trigger] s@[n] == k,
        ComponentSelect::Scalar(i) => i == k,
        _ => 0 <= k < 4,
    }
}

/// Whether the operand is `cb<reg>[v]` with component `k`, and byte `x` belongs to
/// that component of that register.
pub open spec fn takes_byte(op: OperandModel, reg: u32, v: u32, k: int, x: int) -> bool {
    &&& op.reg_type == RegisterType::ConstantBuffer
    &&& op.indices.len() >= 2
    &&& op.indices[0] == IndexModel::Imm32(reg)
    &&& op.indices[1] == IndexModel::Imm32(v)
    &&& takes(op.components, k)
    &&& 16 * v + 4 * k <= x < 16 * v + 4 * k + 4
}

/// Operand `j` of instruction `i`.
pub open spec fn operand_of(p: ProgramModel, i: int, j: int) -> OperandModel {
    kind_operands(p.instructions[i].kind)[j]
}

/// Whether there is an operand `j` of instruction `i`.
pub open spec fn has_operand(p: ProgramModel, i: int, j: int) -> bool {
    0 <= i < p.instructions.len() && 0 <= j < kind_operands(p.instructions[i].kind).len()
}

proof fn lemma_reads(p: ProgramModel, i: int, j: int, reg: u32, offset: u32, size: u32)
    requires
        has_operand(p, i, j),
        operand_reads(operand_of(p, i, j), reg, offset, size),
    ensures
        program_reads(p, reg, offset, size),
{
    let ops = kind_operands(p.instructions[i].kind);
    assert(operand_reads(ops[j], reg, offset, size));
    assert(operands_read(ops, ops.len() as int, reg, offset, size));
}

/// A program reads every byte of every component that an operand takes of a
/// register of a constant buffer: any stretch of bytes with such a byte in it
/// counts as read.
pub proof fn taken_bytes_are_read(
    p: ProgramModel,
    i: int,
    j: int,
    reg: u32,
    v: u32,
    k: int,
    x: int,
    offset: u32,
    size: u32,
)
    requires
        has_operand(p, i, j),
        takes_byte(operand_of(p, i, j), reg, v, k, x),
        offset <= x < offset + size,
    ensures
        program_reads(p, reg, offset, size),
{
    let op = operand_of(p, i, j);
    assert(meets(v * 16 + k * 4, offset, size));
    match op.components {
        ComponentSelect::Swizzle(s) => {
            let n = choose|n: int| 0 <= n < 4 && #[trigger] s@[n] == k;
            assert(s[n] == k);
        },
        _ => {},
    }
    assert(components_meet(op.components, v, offset, size));
    lemma_reads(p, i, j, reg, offset, size);
}

/// An operand inside an index counts like any other.
pub proof fn operands_in_indices_are_read(
    p: ProgramModel,
    i: int,
    j: int,
    n: int,
    reg: u32,
    offset: u32,
    size: u32,
)
    requires
        has_operand(p, i, j),
        0 <= n < operand_of(p, i, j).indices.len(),
        match operand_of(p, i, j).indices[n] {
            IndexModel::Relative(o) => operand_reads(*o, reg, offset, size),
            IndexModel::RelativePlusImm(_, o) => operand_reads(*o, reg, offset, size),
            _ => false,
        },
    ensures
        program_reads(p, reg, offset, size),
{
    let ix = operand_of(p, i, j).indices;
    lemma_index_read(ix, ix.len() as int, n, reg, offset, size);
    lemma_reads(p, i, j, reg, offset, size);
}

proof fn lemma_index_read(
    ix: Seq<IndexModel>,
    m: int,
    n: int,
    reg: u32,
    offset: u32,
    size: u32,
)
    requires
        0 <= n < m <= ix.len(),
        match ix[n] {
            IndexModel::Relative(o) => operand_reads(*o, reg, offset, size),
            IndexModel::RelativePlusImm(_, o) => operand_reads(*o, reg, offset, size),
            _ => false,
        },
    ensures
        indices_read(ix, m, reg, offset, size),
    decreases m,
{
    if n < m - 1 {
        lemma_index_read(ix, m - 1, n, reg, offset, size);
    }
}

/// An index that is another operand plus a number reads what begins in the register
/// of that number; an index that is another operand alone reads every variable of
/// the buffer.
pub proof fn open_indices_read(
    p: ProgramModel,
    i: int,
    j: int,
    reg: u32,
    offset: u32,
    size: u32,
)
    requires
        has_operand(p, i, j),
        operand_of(p, i, j).reg_type == RegisterType::ConstantBuffer,
        operand_of(p, i, j).indices.len() >= 2,
        operand_of(p, i, j).indices[0] == IndexModel::Imm32(reg),
        match operand_of(p, i, j).indices[1] {
            IndexModel::RelativePlusImm(base, _) => offset <= 16 * base < offset + size,
            IndexModel::Relative(_) => true,
            _ => false,
        },
    ensures
        program_reads(p, reg, offset, size),
{
    lemma_reads(p, i, j, reg, offset, size);
}

/// Whether all indices of all operands are plain numbers of one word.
pub open spec fn plainly_indexed(p: ProgramModel) -> bool {
    forall|i: int, j: int, n: int|
        #![trigger operand_of(p, i, j).indices[n]]
        has_operand(p, i, j) && 0 <= n < operand_of(p, i, j).indices.len() ==> operand_of(
            p,
            i,
            j,
        ).indices[n] is Imm32
}

proof fn lemma_no_index_reads(ix: Seq<IndexModel>, m: int, reg: u32, offset: u32, size: u32)
    requires
        forall|n: int| 0 <= n < ix.len() ==> #[trigger] ix[n] is Imm32,
    ensures
        !indices_read(ix, m, reg, offset, size),
    decreases m,
{
    if 0 < m <= ix.len() {
        lemma_no_index_reads(ix, m - 1, reg, offset, size);
        assert(ix[m - 1] is Imm32);
    }
}

/// Nothing else is read: where indices are plain numbers, a stretch of bytes that
/// counts as read holds a byte of a component that an operand takes.
pub proof fn read_bytes_are_taken(p: ProgramModel, reg: u32, offset: u32, size: u32)
    requires
        plainly_indexed(p),
        program_reads(p, reg, offset, size),
    ensures
        exists|i: int, j: int, v: u32, k: int, x: int|
            #![trigger takes_byte(operand_of(p, i, j), reg, v, k, x)]
            has_operand(p, i, j) && takes_byte(operand_of(p, i, j), reg, v, k, x) && offset <= x
                < offset + size,
{
    let i = choose|i: int|
        0 <= i < p.instructions.len() && operands_read(
            kind_operands((#[trigger] p.instructions[i]).kind),
            kind_operands(p.instructions[i].kind).len() as int,
            reg,
            offset,
            size,
        );
    let ops = kind_operands(p.instructions[i].kind);
    let j = choose|j: int| 0 <= j < ops.len() && operand_reads(#[trigger] ops[j], reg, offset, size);
    let op = operand_of(p, i, j);
    assert(has_operand(p, i, j));
    assert forall|n: int| 0 <= n < op.indices.len() implies #[trigger] op.indices[n] is Imm32 by {
        assert(operand_of(p, i, j).indices[n] is Imm32);
    }
    lemma_no_index_reads(op.indices, op.indices.len() as int, reg, offset, size);
    assert(reads_directly(op, reg, offset, size));
    assert(op.indices[1] is Imm32);
    let v = op.indices[1]->Imm32_0;
    let k = match op.components {
        ComponentSelect::Swizzle(s) => if meets(v * 16 + s[0] * 4, offset, size) {
            s@[0] as int
        } else if meets(v * 16 + s[1] * 4, offset, size) {
            s@[1] as int
        } else if meets(v * 16 + s[2] * 4, offset, size) {
            s@[2] as int
        } else {
            s@[3] as int
        },
        ComponentSelect::Scalar(c) => c as int,
        _ => if meets(v * 16, offset, size) {
            0
        } else if meets(v * 16 + 4, offset, size) {
            1
        } else if meets(v * 16 + 8, offset, size) {
            2
        } else {
            3
        },
    };
    assert(takes(op.components, k)) by {
        match op.components {
            ComponentSelect::Swizzle(s) => {
                assert(k == s@[0] || k == s@[1] || k == s@[2] || k == s@[3]);
            },
            _ => {},
        }
    }
    assert(meets(v * 16 + k * 4, offset, size));
    let x = if offset <= 16 * v + 4 * k {
        16 * v + 4 * k
    } else {
        offset as int
    };
    assert(takes_byte(op, reg, v, k, x));
}

/// Whether a binding gives the constant buffer of that name its register, and no
/// binding behind it does.
pub open spec fn gives_register(bs: Seq<BindingModel>, n: int, name: Seq<char>) -> bool {
    &&& 0 <= n < bs.len()
    &&& bs[n].input_type == 0
    &&& bs[n].name == name
    &&& forall|m: int|
        n < m < bs.len() ==> (#[trigger] bs[m]).input_type != 0 || bs[m].name != name
}

proof fn lemma_register(bs: Seq<BindingModel>, n: int, name: Seq<char>, k: int)
    requires
        gives_register(bs, n, name),
        n < k <= bs.len(),
    ensures
        register_of(bs, name, k) == Some(bs[n].bind_point),
    decreases k,
{
    if n < k - 1 {
        assert(bs[k - 1].input_type != 0 || bs[k - 1].name != name);
        lemma_register(bs, n, name, k - 1);
    }
}

/// A variable whose line does not say whether it is used is flagged 2 where the
/// program reads one of its bytes at the register that the buffer is bound to, and
/// 0 where it reads none; a variable whose line says so keeps what it says.
pub proof fn used_variables_are_flagged(
    st: HlslState,
    p: ProgramModel,
    rd: RdefModel,
    b: int,
    j: int,
    n: int,
)
    requires
        completed(st, Some(p)) == Some(rd),
        0 <= b < all_buffers(st).len(),
        0 <= j < all_buffers(st)[b].variables.len(),
        gives_register(st.rd.bindings, n, all_buffers(st)[b].name),
    ensures
        ({
            let v = all_buffers(st)[b].variables[j];
            let reg = st.rd.bindings[n].bind_point;
            let r = rd.constant_buffers[b].variables[j];
            &&& v.flags != 0xFFFF_FFFF ==> r == v
            &&& v.flags == 0xFFFF_FFFF && program_reads(p, reg, v.offset, v.size) ==> r.flags == 2
            &&& v.flags == 0xFFFF_FFFF && !program_reads(p, reg, v.offset, v.size) ==> r.flags == 0
            &&& r.name == v.name
            &&& r.offset == v.offset
            &&& r.size == v.size
            &&& r.var_type == v.var_type
            &&& r.default_value == v.default_value
        }),
{
    let bs = st.rd.bindings;
    lemma_register(bs, n, all_buffers(st)[b].name, bs.len() as int);
}

/// Without a program, or in a buffer that is bound nowhere, no variable counts as
/// used unless its line says so.
pub proof fn unknown_variables_are_unused(
    st: HlslState,
    p: Option<ProgramModel>,
    rd: RdefModel,
    b: int,
    j: int,
)
    requires
        completed(st, p) == Some(rd),
        0 <= b < all_buffers(st).len(),
        0 <= j < all_buffers(st)[b].variables.len(),
        p is None || forall|m: int|
            0 <= m < st.rd.bindings.len() ==> (#[trigger] st.rd.bindings[m]).input_type != 0
                || st.rd.bindings[m].name != all_buffers(st)[b].name,
    ensures
        rd.constant_buffers[b].variables[j].flags == if all_buffers(st)[b].variables[j].flags
            == 0xFFFF_FFFF {
            0
        } else {
            all_buffers(st)[b].variables[j].flags
        },
{
    let bs = st.rd.bindings;
    if p is Some {
        lemma_unbound(bs, all_buffers(st)[b].name, bs.len() as int);
    }
}

proof fn lemma_unbound(bs: Seq<BindingModel>, name: Seq<char>, k: int)
    requires
        0 <= k <= bs.len(),
        forall|m: int|
            0 <= m < bs.len() ==> (#[trigger] bs[m]).input_type != 0 || bs[m].name != name,
    ensures
        register_of(bs, name, k) is None,
    decreases k,
{
    if k > 0 {
        assert(bs[k - 1].input_type != 0 || bs[k - 1].name != name);
        lemma_unbound(bs, name, k - 1);
    }
}

} // verus!
