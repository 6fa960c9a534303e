//! Programs made from bytes read back.

use vstd::prelude::*;

use crate::floats::Spellings;
use crate::generate::{
    components_drawn, drawn, index_drawn, indices_drawn, instruction_drawn, instructions_drawn,
    lemma_drawn, made_opcodes, made_stages, opcode_drawn, operand_drawn, operands_drawn,
    program_drawn, simple_drawn,
};
use crate::grammar::shex::reading::parsed;
use crate::grammar::shex::text::program_text;
use crate::grammar::tables::shader_types;
use crate::roundtrip::data::valid_operands;
use crate::roundtrip::decoded::lemma_register;
use crate::roundtrip::documents::{lemma_known_code, readable_code};
use crate::roundtrip::instructions::{is_generic, valid_instruction};
use crate::roundtrip::operands::{
    valid_components, valid_index, valid_indices, valid_operand,
};
use crate::roundtrip::programs::{program_reads_back, valid_program};
use crate::roundtrip::tables::is_entry;
use crate::shader::{Role, role_of};
use crate::shex::ir::{IndexModel, InstructionModel, OperandModel, ProgramModel, kind_operands};

verus! {

/// Whether an operand with values selects components.
pub open spec fn selects(op: OperandModel) -> bool {
    op.immediate_values.len() > 0 ==> !(op.components is ZeroComponent)
}

/// Whether that holds of all operands of an instruction.
pub open spec fn all_select(i: InstructionModel) -> bool {
    forall|k: int|
        0 <= k < kind_operands(i.kind).len() ==> selects(#[trigger] kind_operands(i.kind)[k])
}

proof fn lemma_components(d: Seq<u8>)
    ensures
        valid_components(components_drawn(d).0),
{
    let (k, d1) = drawn(d, 0, 4);
    lemma_drawn(d1, 0, 15);
    lemma_drawn(d1, 0, 3);
    let (x, d2) = drawn(d1, 0, 3);
    lemma_drawn(d2, 0, 3);
    let (y, d3) = drawn(d2, 0, 3);
    lemma_drawn(d3, 0, 3);
    let (z, d4) = drawn(d3, 0, 3);
    lemma_drawn(d4, 0, 3);
}

proof fn lemma_simple(d: Seq<u8>)
    ensures
        valid_operand(simple_drawn(d).0),
{
    let (i, d1) = drawn(d, 0, 7);
    lemma_drawn(d1, 0, 3);
    let op = simple_drawn(d).0;
    reveal_with_fuel(valid_indices, 3);
    assert(op.indices[0] == IndexModel::Imm32(i));
}

proof fn lemma_index(d: Seq<u8>, relative: bool)
    ensures
        valid_index(index_drawn(d, relative).0),
{
    let (k, d1) = drawn(
        d,
        0,
        if relative {
            3
        } else {
            1
        },
    );
    lemma_simple(d1);
    let (v, d2) = drawn(d1, 0, 63);
    lemma_simple(d2);
}

/// Indices that can all be written, as a list.
proof fn lemma_all_indices(ix: Seq<IndexModel>, k: int)
    requires
        0 <= k <= ix.len(),
        forall|i: int| 0 <= i < ix.len() ==> valid_index(#[trigger] ix[i]),
    ensures
        valid_indices(ix, k),
    decreases ix.len() - k,
{
    if k < ix.len() {
        assert(valid_index(ix[k]));
        lemma_all_indices(ix, k + 1);
    }
}

proof fn lemma_indices(d: Seq<u8>, n: int, all: int)
    ensures
        forall|i: int|
            0 <= i < indices_drawn(d, n, all).0.len() ==> valid_index(
                #[trigger] indices_drawn(d, n, all).0[i],
            ),
    decreases n,
{
    if n > 0 {
        lemma_indices(d, n - 1, all);
        let (ix, d1) = indices_drawn(d, n - 1, all);
        lemma_index(d1, n == all);
        let more = indices_drawn(d, n, all).0;
        assert forall|i: int| 0 <= i < more.len() implies valid_index(#[trigger] more[i]) by {
            if i < ix.len() {
                assert(more[i] == ix[i]);
            }
        }
    }
}

proof fn lemma_operand(d: Seq<u8>)
    requires
        selects(operand_drawn(d).0),
    ensures
        valid_operand(operand_drawn(d).0),
{
    let op = operand_drawn(d).0;
    let (k, d1) = drawn(d, 0, 7);
    if k == 0 {
        let (m, e1) = drawn(d1, 0, 2);
        lemma_components(e1);
    } else {
        let (v, d2) = drawn(d1, 0, 45);
        lemma_register(v);
        let (n, d3) = drawn(d2, 0, 3);
        lemma_indices(d3, n as int, n as int);
        let (ix, d4) = indices_drawn(d3, n as int, n as int);
        lemma_all_indices(ix, 0);
        lemma_components(d4);
    }
}

proof fn lemma_operands(d: Seq<u8>, n: int)
    requires
        forall|i: int|
            0 <= i < operands_drawn(d, n).0.len() ==> selects(#[trigger] operands_drawn(d, n).0[i]),
    ensures
        valid_operands(operands_drawn(d, n).0),
    decreases n,
{
    if n > 0 {
        let (ops, d1) = operands_drawn(d, n - 1);
        let all = operands_drawn(d, n).0;
        assert forall|i: int| 0 <= i < ops.len() implies selects(#[trigger] ops[i]) by {
            assert(all[i] == ops[i]);
        }
        lemma_operands(d, n - 1);
        assert(all[ops.len() as int] == operand_drawn(d1).0);
        lemma_operand(d1);
        assert forall|i: int| 0 <= i < all.len() implies valid_operand(#[trigger] all[i]) by {
            if i < ops.len() {
                assert(all[i] == ops[i]);
            }
        }
    }
}

proof fn lemma_opcode(d: Seq<u8>)
    ensures
        is_generic(opcode_drawn(d).0),
{
    let (k, d1) = drawn(d, 0, 19);
    lemma_drawn(d1, 218, 0x7FF);
    lemma_drawn(d1, 0, 19);
    if k != 0 {
        let (i, d2) = drawn(d1, 0, 19);
        let all = made_opcodes();
        assert(0 <= i < 20);
        assert(is_generic(all[i as int])) by {
            lemma_made_opcode(i as int);
        }
    }
}

proof fn lemma_made_opcode(i: int)
    requires
        0 <= i < 20,
    ensures
        is_generic(made_opcodes()[i]),
{
    let all = made_opcodes();
    if i < 10 {
        if i == 0 {
            assert(is_generic(all[0]));
        } else if i == 1 {
            assert(is_generic(all[1]));
        } else if i == 2 {
            assert(is_generic(all[2]));
        } else if i == 3 {
            assert(is_generic(all[3]));
        } else if i == 4 {
            assert(is_generic(all[4]));
        } else if i == 5 {
            assert(is_generic(all[5]));
        } else if i == 6 {
            assert(is_generic(all[6]));
        } else if i == 7 {
            assert(is_generic(all[7]));
        } else if i == 8 {
            assert(is_generic(all[8]));
        } else {
            assert(is_generic(all[9]));
        }
    } else {
        if i == 10 {
            assert(is_generic(all[10]));
        } else if i == 11 {
            assert(is_generic(all[11]));
        } else if i == 12 {
            assert(is_generic(all[12]));
        } else if i == 13 {
            assert(is_generic(all[13]));
        } else if i == 14 {
            assert(is_generic(all[14]));
        } else if i == 15 {
            assert(is_generic(all[15]));
        } else if i == 16 {
            assert(is_generic(all[16]));
        } else if i == 17 {
            assert(is_generic(all[17]));
        } else if i == 18 {
            assert(is_generic(all[18]));
        } else {
            assert(is_generic(all[19]));
        }
    }
}

proof fn lemma_instruction(d: Seq<u8>)
    requires
        all_select(instruction_drawn(d).0),
    ensures
        valid_instruction(instruction_drawn(d).0),
{
    lemma_opcode(d);
    let (opcode, d1) = opcode_drawn(d);
    let (n, d2) = drawn(d1, 0, 4);
    let ops = operands_drawn(d2, n as int).0;
    let i = instruction_drawn(d).0;
    assert(kind_operands(i.kind) == ops);
    assert forall|k: int| 0 <= k < ops.len() implies selects(#[trigger] ops[k]) by {
        assert(selects(kind_operands(i.kind)[k]));
    }
    lemma_operands(d2, n as int);
}

proof fn lemma_instructions(d: Seq<u8>, n: int)
    requires
        forall|i: int|
            0 <= i < instructions_drawn(d, n).0.len() ==> all_select(
                #[trigger] instructions_drawn(d, n).0[i],
            ),
    ensures
        forall|i: int|
            0 <= i < instructions_drawn(d, n).0.len() ==> valid_instruction(
                #[trigger] instructions_drawn(d, n).0[i],
            ),
    decreases n,
{
    if n > 0 {
        let (is, d1) = instructions_drawn(d, n - 1);
        let all = instructions_drawn(d, n).0;
        assert forall|i: int| 0 <= i < is.len() implies all_select(#[trigger] is[i]) by {
            assert(all[i] == is[i]);
        }
        lemma_instructions(d, n - 1);
        assert(all[is.len() as int] == instruction_drawn(d1).0);
        lemma_instruction(d1);
        assert forall|i: int| 0 <= i < all.len() implies valid_instruction(#[trigger] all[i]) by {
            if i < is.len() {
                assert(all[i] == is[i]);
            }
        }
    }
}

proof fn lemma_stage(i: int)
    requires
        0 <= i < 6,
    ensures
        is_entry(shader_types(), made_stages()[i]),
{
    let t = shader_types();
    let s = made_stages();
    if i == 0 {
        assert(t[0].0 == s[0]);
    } else if i == 1 {
        assert(t[1].0 == s[1]);
    } else if i == 2 {
        assert(t[2].0 == s[2]);
    } else if i == 3 {
        assert(t[3].0 == s[3]);
    } else if i == 4 {
        assert(t[4].0 == s[4]);
    } else {
        assert(t[5].0 == s[5]);
    }
}

/// The codes of programs can stand on a line.
pub proof fn lemma_program_code(f: Seq<u8>)
    requires
        role_of(f) == Some(Role::Program),
    ensures
        readable_code(f),
{
    lemma_known_code(f);
    let t = vstd::utf8::decode_utf8(f);
    assert(t == crate::container::fourcc_text(f));
    assert(!crate::text::is_white(t[0]) && !crate::text::is_white(t[3]));
    if t.contains('\n') {
        let i = choose|i: int| 0 <= i < t.len() && t[i] == '\n';
        assert(t[i] != '\n');
    }
    assert forall|i: int| 0 <= i < t.len() - 1 implies !(#[trigger] t[i] == '/' && t[i + 1]
        == '/') by {
        assert(t[i] != '/');
    }
}

/// Whatever bytes a program is made from, its text reads back as that very
/// program, unless they make an immediate operand that has values and yet
/// selects no components.
pub proof fn generated_program_reads_back(d: Seq<u8>, ft: Spellings)
    requires
        forall|i: int|
            0 <= i < program_drawn(d).instructions.len() ==> all_select(
                #[trigger] program_drawn(d).instructions[i],
            ),
    ensures
        parsed(program_text(program_drawn(d), ft), ft) == Ok::<ProgramModel, Seq<char>>(
            program_drawn(d),
        ),
{
    let p = program_drawn(d);
    let (s, d1) = drawn(d, 0, 5);
    let (n, d2) = drawn(d1, 1, 8);
    lemma_drawn(d, 0, 5);
    lemma_stage(s as int);
    let is = instructions_drawn(d2, n as int).0;
    assert(p.instructions == is);
    assert forall|i: int| 0 <= i < is.len() implies all_select(#[trigger] is[i]) by {
        assert(all_select(p.instructions[i]));
    }
    lemma_instructions(d2, n as int);
    assert(role_of(p.fourcc) == Some(Role::Program)) by {
        reveal(role_of);
    }
    lemma_program_code(p.fourcc);
    assert(valid_program(p));
    program_reads_back(p, ft);
}

} // verus!
