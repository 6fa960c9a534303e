//! What the comments behind instructions say.

use vstd::prelude::*;

use crate::chunks::rdef::RdefModel;
use crate::shex::ir::{InstructionModel, OperandModel};
use crate::symbolicate::{
    Named, instruction_note, is_named, named_list, named_operands, note_comment, plain_operand,
    resource_name,
};

verus! {

/// Every operand with a name is noted, and no text of an operand twice; what is noted
/// is the text of an operand and its name.
pub proof fn names_are_noted_once(ops: Seq<OperandModel>, rd: RdefModel, i: int, j: int)
    ensures
        ({
            let all = named_operands(ops, rd, ops.len() as int);
            &&& 0 <= i < ops.len() && resource_name(ops[i], rd) is Some ==> is_named(
                all,
                plain_operand(ops[i]),
            )
            &&& 0 <= i < j < all.len() ==> all[i].addr != all[j].addr
            &&& 0 <= i < all.len() ==> exists|k: int|
                0 <= k < ops.len() && all[i] == (Named {
                    addr: plain_operand(#[trigger] ops[k]),
                    name: resource_name(ops[k], rd)->0,
                }) && resource_name(ops[k], rd) is Some
        }),
{
    lemma_named(ops, rd, ops.len() as int, i, j);
}

proof fn lemma_named(ops: Seq<OperandModel>, rd: RdefModel, n: int, i: int, j: int)
    requires
        0 <= n <= ops.len(),
    ensures
        ({
            let all = named_operands(ops, rd, n);
            &&& 0 <= i < n && resource_name(ops[i], rd) is Some ==> is_named(
                all,
                plain_operand(ops[i]),
            )
            &&& 0 <= i < j < all.len() ==> all[i].addr != all[j].addr
            &&& 0 <= i < all.len() ==> exists|k: int|
                0 <= k < n && all[i] == (Named {
                    addr: plain_operand(#[trigger] ops[k]),
                    name: resource_name(ops[k], rd)->0,
                }) && resource_name(ops[k], rd) is Some
        }),
    decreases n,
{
    if n > 0 {
        lemma_named(ops, rd, n - 1, i, j);
        let before = named_operands(ops, rd, n - 1);
        let all = named_operands(ops, rd, n);
        let op = ops[n - 1];
        let grown = resource_name(op, rd) is Some && !is_named(before, plain_operand(op));
        if grown {
            assert(all.last().addr == plain_operand(op));
            assert(all[all.len() - 1].addr == plain_operand(op));
        }
        if 0 <= i < n - 1 && resource_name(ops[i], rd) is Some {
            let k = choose|k: int|
                0 <= k < before.len() && (#[trigger] before[k]).addr == plain_operand(ops[i]);
            assert(all[k] == before[k]);
        }
        if 0 <= i < j < all.len() {
            assert(all[i] == before[i]);
        }
        if 0 <= i < all.len() {
            if i < before.len() {
                assert(all[i] == before[i]);
            } else {
                assert(all[i] == (Named {
                    addr: plain_operand(ops[n - 1]),
                    name: resource_name(ops[n - 1], rd)->0,
                }));
            }
        }
    }
}

/// Each note is the text of an operand, an equals sign and its name, and notes are
/// separated by commas.
pub proof fn notes_are_listed(all: Seq<Named>, x: Named)
    ensures
        named_list(seq![x], 1) == x.addr + seq![' ', '=', ' '] + x.name,
        all.len() > 0 ==> named_list(all.push(x), all.len() as int + 1) == named_list(
            all,
            all.len() as int,
        ) + seq![',', ' '] + x.addr + seq![' ', '=', ' '] + x.name,
{
    reveal_strlit(" = ");
    reveal_strlit(", ");
    assert(" = "@ =~= seq![' ', '=', ' ']);
    assert(", "@ =~= seq![',', ' ']);
    reveal_with_fuel(named_list, 2);
    assert(named_list(seq![x], 1) =~= x.addr + seq![' ', '=', ' '] + x.name);
    lemma_list_prefix(all, x, all.len() as int);
}

proof fn lemma_list_prefix(all: Seq<Named>, x: Named, n: int)
    requires
        0 <= n <= all.len(),
    ensures
        named_list(all.push(x), n) == named_list(all, n),
    decreases n,
{
    if n > 0 {
        lemma_list_prefix(all, x, n - 1);
    }
}

/// An instruction has its notes behind two spaces and the sign of a comment; nothing is
/// said where nothing has a name, nor behind a declaration or a data block.
pub proof fn notes_are_comments(i: InstructionModel, rd: RdefModel)
    ensures
        instruction_note(i, rd) is Some ==> note_comment(i, rd) == seq![' ', ' ', '/', '/', ' ']
            + instruction_note(i, rd)->0,
        instruction_note(i, rd) is None ==> note_comment(i, rd).len() == 0,
        !(i.kind is Generic) ==> instruction_note(i, rd) is None,
        i.kind is Generic ==> ({
            let ops = i.kind->Generic_operands;
            instruction_note(i, rd) is Some == exists|k: int|
                0 <= k < ops.len() && resource_name(#[trigger] ops[k], rd) is Some
        }),
{
    reveal_strlit("  // ");
    assert("  // "@ =~= seq![' ', ' ', '/', '/', ' ']);
    if i.kind is Generic {
        let ops = i.kind->Generic_operands;
        let all = named_operands(ops, rd, ops.len() as int);
        if all.len() > 0 {
            names_are_noted_once(ops, rd, 0, 0);
            let k = choose|k: int|
                0 <= k < ops.len() && all[0] == (Named {
                    addr: plain_operand(#[trigger] ops[k]),
                    name: resource_name(ops[k], rd)->0,
                }) && resource_name(ops[k], rd) is Some;
            assert(resource_name(ops[k], rd) is Some);
        }
        if exists|k: int| 0 <= k < ops.len() && resource_name(#[trigger] ops[k], rd) is Some {
            let k = choose|k: int|
                0 <= k < ops.len() && resource_name(#[trigger] ops[k], rd) is Some;
            names_are_noted_once(ops, rd, k, 0);
        }
    }
}

} // verus!
