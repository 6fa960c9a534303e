//! What the bytes that a program is made from stand for.

use vstd::prelude::*;

use crate::generate::{
    components_drawn, dim_drawn, drawn, flag_drawn, immediate_drawn, index_drawn, indices_drawn,
    instruction_drawn, instructions_drawn, lemma_drawn, made_opcodes, modifiers_drawn, offset_drawn,
    offsets_drawn, opcode_drawn, operand_drawn, operands_drawn, program_drawn, resinfo_drawn,
    sync_drawn, word_drawn, words_drawn,
};
use crate::meaning::texts::lemma_resource_words;
use crate::shex::ir::{ComponentSelect, IndexModel, Opcode, RegisterType};

verus! {

/// A choice takes no byte where there is none, one byte among at most two hundred and
/// fifty-six numbers, and two among more, the higher first; it is the remainder, and
/// the least where the bytes are used up.
pub proof fn choices_are_remainders(d: Seq<u8>, lo: u32, hi: u32)
    requires
        lo <= hi,
        hi - lo <= 0xffff,
    ensures
        lo == hi ==> drawn(d, lo, hi) == (lo, d),
        d.len() == 0 ==> drawn(d, lo, hi).0 == lo,
        d.len() >= 1 && 0 < hi - lo <= 255 ==> drawn(d, lo, hi) == (
            (lo + d[0] as int % (hi - lo + 1)) as u32,
            d.skip(1),
        ),
        d.len() >= 2 && hi - lo > 255 ==> drawn(d, lo, hi) == (
            (lo + (256 * d[0] + d[1]) % (hi - lo + 1)) as u32,
            d.skip(2),
        ),
        lo <= drawn(d, lo, hi).0 <= hi,
        drawn(d, lo, hi).1.len() <= d.len(),
{
    lemma_drawn(d, lo, hi);
    assert(d.skip(0) =~= d);
    if lo == hi {
        assert(0int % 1int == 0);
    }
    if d.len() == 0 {
        let m = (hi - lo + 1) as int;
        assert(0int % m == 0) by (nonlinear_arith)
            requires
                m > 0,
        ;
    }
}

/// A truth value is whether a byte is odd, and a word is four bytes, the lowest first.
pub proof fn flags_and_words_are_bytes(d: Seq<u8>)
    ensures
        d.len() >= 1 ==> flag_drawn(d) == (d[0] % 2 == 1, d.skip(1)),
        d.len() == 0 ==> flag_drawn(d).0 == false,
        d.len() >= 4 ==> word_drawn(d) == (
            (d[0] + 0x100 * d[1] + 0x1_0000 * d[2] + 0x100_0000 * d[3]) as u32,
            d.skip(4),
        ),
{
}

/// The first byte chooses the stage of a program, and the second the number of its
/// instructions, from one to eight. It is of shader model five.
pub proof fn programs_are_chosen(d: Seq<u8>)
    requires
        d.len() >= 2,
    ensures
        ({
            let p = program_drawn(d);
            &&& d[0] % 6 == 0 ==> p.shader_type == "ps"@
            &&& d[0] % 6 == 1 ==> p.shader_type == "vs"@
            &&& d[0] % 6 == 2 ==> p.shader_type == "gs"@
            &&& d[0] % 6 == 3 ==> p.shader_type == "hs"@
            &&& d[0] % 6 == 4 ==> p.shader_type == "ds"@
            &&& d[0] % 6 == 5 ==> p.shader_type == "cs"@
            &&& p.major_version == 5
            &&& p.minor_version <= 1
            &&& p.instructions.len() == 1 + d[1] % 8
            &&& p.instructions[0] == instruction_drawn(d.skip(2)).0
            &&& p.fourcc == seq![0x53u8, 0x48u8, 0x45u8, 0x58u8] || p.fourcc == seq![
                0x53u8,
                0x48u8,
                0x44u8,
                0x52u8,
            ]
        }),
{
    choices_are_remainders(d, 0, 5);
    let d1 = drawn(d, 0, 5).1;
    choices_are_remainders(d1, 1, 8);
    let (n, d2) = drawn(d1, 1, 8);
    assert(d1.skip(1) =~= d.skip(2));
    lemma_first_instruction(d2, n as int);
    let d3 = instructions_drawn(d2, n as int).1;
    choices_are_remainders(d3, 0, 1);
}

proof fn lemma_first_instruction(d: Seq<u8>, n: int)
    requires
        n >= 1,
    ensures
        instructions_drawn(d, n).0.len() == n,
        instructions_drawn(d, n).0[0] == instruction_drawn(d).0,
    decreases n,
{
    if n == 1 {
        reveal_with_fuel(instructions_drawn, 2);
    } else {
        lemma_first_instruction(d, n - 1);
    }
}

/// One byte in twenty chooses an opcode without a name, and the next two its number;
/// the others leave it to the next byte to choose among the opcodes that are made.
pub proof fn opcodes_are_chosen(d: Seq<u8>)
    requires
        d.len() >= 3,
    ensures
        d[0] % 20 == 0 ==> opcode_drawn(d).0 == Opcode::Unknown(
            (218 + (256 * d[1] + d[2]) % 1830) as u32,
        ),
        d[0] % 20 != 0 ==> opcode_drawn(d).0 == made_opcodes()[d[1] as int % 20],
        made_opcodes().len() == 20,
{
    choices_are_remainders(d, 0, 19);
    let d1 = drawn(d, 0, 19).1;
    assert(d1[0] == d[1] && d1[1] == d[2]);
    choices_are_remainders(d1, 218, 0x7FF);
    choices_are_remainders(d1, 0, 19);
}

/// An instruction has at most four operands, and those in their order.
pub proof fn instructions_are_chosen(d: Seq<u8>)
    ensures
        ({
            let i = instruction_drawn(d).0;
            let e = opcode_drawn(d).1;
            &&& i.opcode == opcode_drawn(d).0
            &&& i.kind is Generic
            &&& i.kind->Generic_operands.len() <= 4
            &&& e.len() >= 1 ==> i.kind->Generic_operands.len() == e[0] % 5
            &&& e.len() >= 1 && e[0] % 5 > 0 ==> i.kind->Generic_operands[0] == operand_drawn(
                e.skip(1),
            ).0
        }),
{
    let e = opcode_drawn(d).1;
    choices_are_remainders(e, 0, 4);
    let (n, f) = drawn(e, 0, 4);
    lemma_first_operand(f, n as int);
}

proof fn lemma_first_operand(d: Seq<u8>, n: int)
    requires
        n >= 0,
    ensures
        operands_drawn(d, n).0.len() == n,
        n > 0 ==> operands_drawn(d, n).0[0] == operand_drawn(d).0,
    decreases n,
{
    if n == 1 {
        reveal_with_fuel(operands_drawn, 2);
    } else if n > 1 {
        lemma_first_operand(d, n - 1);
    }
}

/// One byte in eight chooses an immediate operand: without a value, with one, or with
/// four of any components. The others choose a register file by number, a temporary in
/// place of an immediate, and up to three indices.
pub proof fn operands_are_chosen(d: Seq<u8>)
    requires
        d.len() >= 3,
    ensures
        ({
            let op = operand_drawn(d).0;
            &&& d[0] % 8 == 0 ==> {
                &&& op.reg_type == RegisterType::Immediate32
                &&& op.indices.len() == 0
                &&& d[1] % 3 == 0 ==> op.immediate_values.len() == 0 && op.components
                    == ComponentSelect::ZeroComponent
                &&& d[1] % 3 == 1 ==> op.immediate_values.len() == 1 && op.components
                    == ComponentSelect::OneComponent
                &&& d[1] % 3 == 2 ==> op.immediate_values.len() == 4 && op.components
                    == components_drawn(d.skip(2)).0
            }
            &&& d[0] % 8 != 0 ==> {
                let r = RegisterType::spec_from_u32((d[1] as int % 46) as u32);
                &&& r == RegisterType::Immediate32 || r == RegisterType::Immediate64 ==> op.reg_type
                    == RegisterType::Temp
                &&& r != RegisterType::Immediate32 && r != RegisterType::Immediate64 ==> op.reg_type
                    == r
                &&& op.indices.len() == d[2] % 4
                &&& op.immediate_values.len() == 0
            }
        }),
{
    choices_are_remainders(d, 0, 7);
    let d1 = drawn(d, 0, 7).1;
    assert(d1[0] == d[1] && d1[1] == d[2]);
    choices_are_remainders(d1, 0, 2);
    choices_are_remainders(d1, 0, 45);
    assert(d1.skip(1) =~= d.skip(2));
    let (n, c, d2) = immediate_drawn(d1);
    lemma_words(d2, n);
    let d3 = drawn(d1, 0, 45).1;
    assert(d3[0] == d[2]);
    choices_are_remainders(d3, 0, 3);
    let (k, d4) = drawn(d3, 0, 3);
    lemma_indices(d4, k as int, k as int);
}

proof fn lemma_words(d: Seq<u8>, n: int)
    requires
        n >= 0,
    ensures
        words_drawn(d, n).0.len() == n,
    decreases n,
{
    if n > 0 {
        lemma_words(d, n - 1);
    }
}

proof fn lemma_indices(d: Seq<u8>, n: int, all: int)
    requires
        0 <= n <= all,
    ensures
        indices_drawn(d, n, all).0.len() == n,
        forall|i: int|
            0 <= i < n && i < all - 1 ==> (#[trigger] indices_drawn(d, n, all).0[i]) is Imm32
                || indices_drawn(d, n, all).0[i] is Imm64,
    decreases n,
{
    if n > 0 {
        lemma_indices(d, n - 1, all);
        let e = indices_drawn(d, n - 1, all).1;
        choices_are_remainders(
            e,
            0,
            if n == all {
                3
            } else {
                1
            },
        );
        let a = indices_drawn(d, n - 1, all).0;
        let b = indices_drawn(d, n, all).0;
        assert forall|i: int| 0 <= i < n && i < all - 1 implies (#[trigger] b[i]) is Imm32
            || b[i] is Imm64 by {
            if i < n - 1 {
                assert(b[i] == a[i]);
            }
        }
    }
}

/// Only the last index of an operand is a register.
pub proof fn last_indices_are_registers(d: Seq<u8>, i: int)
    ensures
        ({
            let ix = operand_drawn(d).0.indices;
            0 <= i < ix.len() - 1 ==> ix[i] is Imm32 || ix[i] is Imm64
        }),
{
    choices_are_remainders(d, 0, 7);
    let d1 = drawn(d, 0, 7).1;
    let d3 = drawn(d1, 0, 45).1;
    choices_are_remainders(d3, 0, 3);
    let (k, d4) = drawn(d3, 0, 3);
    lemma_indices(d4, k as int, k as int);
}

/// The kinds of components and of indices by the byte that chooses them.
pub proof fn components_and_indices_are_chosen(d: Seq<u8>)
    requires
        d.len() >= 2,
    ensures
        ({
            let c = components_drawn(d).0;
            &&& d[0] % 5 == 0 ==> c is ZeroComponent
            &&& d[0] % 5 == 1 ==> c is OneComponent
            &&& d[0] % 5 == 2 ==> c == ComponentSelect::Mask((d[1] as int % 16) as u8)
            &&& d[0] % 5 == 3 ==> c is Swizzle
            &&& d[0] % 5 == 4 ==> c == ComponentSelect::Scalar((d[1] as int % 4) as u8)
        }),
        ({
            let i = index_drawn(d, true).0;
            &&& d[0] % 4 == 0 ==> i == IndexModel::Imm32((d[1] as int % 64) as u32)
            &&& d[0] % 4 == 1 ==> i == IndexModel::Imm64((d[1] as int % 64) as u64)
            &&& d[0] % 4 == 2 ==> i is Relative
            &&& d[0] % 4 == 3 ==> i is RelativePlusImm && i->RelativePlusImm_0 == d[1] % 64
        }),
        ({
            let i = index_drawn(d, false).0;
            &&& d[0] % 2 == 0 ==> i == IndexModel::Imm32((d[1] as int % 64) as u32)
            &&& d[0] % 2 == 1 ==> i == IndexModel::Imm64((d[1] as int % 64) as u64)
        }),
{
    choices_are_remainders(d, 0, 4);
    choices_are_remainders(d, 0, 3);
    choices_are_remainders(d, 0, 1);
    let e = d.skip(1);
    assert(e[0] == d[1]);
    choices_are_remainders(e, 0, 15);
    choices_are_remainders(e, 0, 3);
    choices_are_remainders(e, 0, 63);
}

/// What modifiers can be: four bits of precise components and of what a barrier
/// synchronises, three kinds of size queries, texel offsets from minus eight to seven,
/// dimensions up to number twelve with strides up to three, and any return types.
pub proof fn modifiers_are_chosen(d: Seq<u8>)
    ensures
        ({
            let m = modifiers_drawn(d).0;
            &&& m.precise_mask <= 15
            &&& m.sync_flags <= 15
            &&& m.resinfo_return_type is Some ==> m.resinfo_return_type->0 <= 2
            &&& m.tex_offsets is Some ==> -8 <= (m.tex_offsets->0)[0] <= 7 && -8 <= (
            m.tex_offsets->0)[1] <= 7 && -8 <= (m.tex_offsets->0)[2] <= 7
            &&& m.resource_dim is Some ==> exists|a: u32, b: u32|
                a <= 12 && b <= 3 && m.resource_dim->0 == 2 + 64 * a + #[trigger] scaled(a, b)
        }),
        d.len() >= 3 ==> modifiers_drawn(d).0.saturate == (d[0] % 2 == 1) && modifiers_drawn(
            d,
        ).0.test_nonzero == (d[1] % 2 == 1) && modifiers_drawn(d).0.precise_mask == d[2] % 16,
{
    let d1 = flag_drawn(d).1;
    let d2 = flag_drawn(d1).1;
    choices_are_remainders(d2, 0, 15);
    let d3 = drawn(d2, 0, 15).1;
    choices_are_remainders(d3, 0, 3);
    choices_are_remainders(drawn(d3, 0, 3).1, 0, 2);
    let d4 = resinfo_drawn(d3).1;
    choices_are_remainders(d4, 0, 3);
    choices_are_remainders(drawn(d4, 0, 3).1, 0, 15);
    let d5 = sync_drawn(d4).1;
    let o1 = drawn(d5, 0, 3).1;
    lemma_offset(o1);
    let o2 = offset_drawn(o1).1;
    lemma_offset(o2);
    lemma_offset(offset_drawn(o2).1);
    let d6 = offsets_drawn(d5).1;
    lemma_dim(d6);
    if d.len() >= 3 {
        assert(d1[0] == d[1]);
        assert(d2[0] == d[2]);
    }
}

/// What a stride adds to a dimension's word.
pub open spec fn scaled(a: u32, b: u32) -> int {
    2048 * b
}

proof fn lemma_offset(d: Seq<u8>)
    ensures
        -8 <= offset_drawn(d).0 <= 7,
{
    choices_are_remainders(d, 0, 15);
}

proof fn lemma_dim(d: Seq<u8>)
    ensures
        dim_drawn(d).0 is Some ==> exists|a: u32, b: u32|
            a <= 12 && b <= 3 && dim_drawn(d).0->0 == 2 + 64 * a + #[trigger] scaled(a, b),
{
    let (k, d1) = drawn(d, 0, 3);
    choices_are_remainders(d1, 0, 12);
    let (a, d2) = drawn(d1, 0, 12);
    choices_are_remainders(d2, 0, 3);
    let b = drawn(d2, 0, 3).0;
    lemma_resource_words(a, b, 0, 0, 0, 0, (2 + 64 * a + 2048 * b) as u32, 3);
    assert(scaled(a, b) == 2048 * b);
}

} // verus!
