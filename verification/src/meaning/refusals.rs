//! Which bytecode is read, and which is refused.

use vstd::prelude::*;

use crate::bytes::word_at;
use crate::grammar::tables::{shader_types, table_name};
use crate::roundtrip::recoded::lemma_mask;
use crate::shex::decode::{
    components_of, counted_words, extras_at, index_at, instructions_from, modifier_of, operand_at,
    program_of, signed_nibble,
};
use crate::shex::ir::{ComponentSelect, Modifiers, Opcode};

verus! {

/// Bytecode that is shorter than its header, counts fewer words than its header has,
/// or counts more than there are, is refused.
pub proof fn cut_bytecode_is_refused(d: Seq<u8>, fourcc: Seq<u8>)
    requires
        d.len() < 8 || word_at(d, 4) < 2 || 4 * word_at(d, 4) > d.len(),
    ensures
        program_of(d, fourcc) is None,
{
}

/// What stands behind the words that bytecode counts says nothing.
pub proof fn bytes_behind_the_count_say_nothing(d: Seq<u8>, e: Seq<u8>, fourcc: Seq<u8>)
    requires
        d.len() >= 8,
        4 * word_at(d, 4) <= d.len(),
    ensures
        program_of(d + e, fourcc) == program_of(d, fourcc),
{
    let x = d + e;
    assert(x.subrange(4, 8) =~= d.subrange(4, 8));
    if word_at(d, 4) >= 2 {
        let a = counted_words(x)->0;
        let b = counted_words(d)->0;
        assert forall|i: int| 0 <= i < word_at(d, 4) implies a[i] == b[i] by {
            assert(x.subrange(4 * i, 4 * i + 4) =~= d.subrange(4 * i, 4 * i + 4));
        }
        assert(a =~= b);
    }
}

/// The stage stands in the upper half of the first word, and the version in its lowest
/// byte, the major number higher. A stage without a name is refused.
pub proof fn stages_stand_in_the_first_word(d: Seq<u8>, fourcc: Seq<u8>)
    ensures
        program_of(d, fourcc) is Some ==> ({
            let p = program_of(d, fourcc)->0;
            let w = word_at(d, 0);
            let n = (w >> 16) & 0xFFFF;
            &&& n == 0 ==> p.shader_type == "ps"@
            &&& n == 1 ==> p.shader_type == "vs"@
            &&& n == 2 ==> p.shader_type == "gs"@
            &&& n == 3 ==> p.shader_type == "hs"@
            &&& n == 4 ==> p.shader_type == "ds"@
            &&& n == 5 ==> p.shader_type == "cs"@
            &&& n <= 5
            &&& p.major_version == (w >> 4) & 0xF
            &&& p.minor_version == (w >> 0) & 0xF
            &&& p.fourcc == fourcc
        }),
{
    if program_of(d, fourcc) is Some {
        let ws = counted_words(d)->0;
        assert(ws[0] == word_at(d, 0));
        lemma_stage((ws[0] >> 16) & 0xFFFF);
    }
}

proof fn lemma_stage(n: u32)
    ensures
        table_name(shader_types(), n) == (if n == 0 {
            Some("ps"@)
        } else if n == 1 {
            Some("vs"@)
        } else if n == 2 {
            Some("gs"@)
        } else if n == 3 {
            Some("hs"@)
        } else if n == 4 {
            Some("ds"@)
        } else if n == 5 {
            Some("cs"@)
        } else {
            None
        }),
{
    reveal_with_fuel(table_name, 8);
    let t = shader_types();
    let u = t.skip(1).skip(1).skip(1);
    assert(t.skip(1)[0] == t[1] && t.skip(1).skip(1)[0] == t[2] && u[0] == t[3] && u.skip(1)[0]
        == t[4] && u.skip(1).skip(1)[0] == t[5]);
    assert(u.skip(1).skip(1).skip(1).len() == 0);
}

/// An instruction says its length in seven bits of its first word, and a data block in
/// its second word. One without a length, or that is longer than what is left, is
/// refused, and so is all that it stands in.
pub proof fn overlong_instructions_are_refused(ws: Seq<u32>, p: int)
    requires
        0 <= p < ws.len(),
    ensures
        ({
            let n = (ws[p] >> 24) & 0x7F;
            let op = (ws[p] >> 0) & 0x7FF;
            &&& op != 53 && (n == 0 || p + n > ws.len()) ==> instructions_from(ws, p) is None
            &&& op == 53 && p + 1 == ws.len() ==> instructions_from(ws, p) is None
            &&& op == 53 && p + 1 < ws.len() && (ws[p + 1] == 0 || p + ws[p + 1] > ws.len())
                ==> instructions_from(ws, p) is None
            &&& op != 53 && n > 0 && p + n < ws.len() && instructions_from(ws, p + n) is None
                ==> instructions_from(ws, p) is None
        }),
{
    let op = (ws[p] >> 0) & 0x7FF;
    assert(Opcode::spec_from_u32(53) == Opcode::CustomData);
    if op != 53 {
        assert(Opcode::spec_from_u32(op) != Opcode::CustomData);
    }
}

/// The word of an operand's modifier is 0x41 for a minus sign, 0x81 for an absolute
/// value and 0xC1 for both; any other is refused.
pub proof fn operand_modifiers_are_three(b: Seq<u32>, p: int)
    requires
        0 <= p < b.len(),
    ensures
        b[p] == 0x41 ==> modifier_of(b, p, true) == Some(((true, false), p + 1)),
        b[p] == 0x81 ==> modifier_of(b, p, true) == Some(((false, true), p + 1)),
        b[p] == 0xC1 ==> modifier_of(b, p, true) == Some(((true, true), p + 1)),
        b[p] != 0x41 && b[p] != 0x81 && b[p] != 0xC1 ==> modifier_of(b, p, true) is None,
        modifier_of(b, p, false) == Some(((false, false), p)),
{
}

/// A further word of an instruction that is of none of three kinds is refused.
pub proof fn further_words_are_of_three_kinds(b: Seq<u32>, p: int, m: Modifiers)
    requires
        0 <= p < b.len(),
    ensures
        ({
            let kind = (b[p] >> 0) & 0x3F;
            kind == 0 || kind > 3 ==> extras_at(b, p, true, m) is None
        }),
        extras_at(b, b.len() as int, true, m) is None,
        extras_at(b, p, false, m) == Some((m, p)),
{
}

/// An operand with four components and no way to select them is refused, and so is one
/// of more components than four.
pub proof fn selections_are_of_five_kinds(b: Seq<u32>, p: int)
    requires
        0 <= p < b.len(),
    ensures
        ({
            let n = (b[p] >> 0) & 3;
            let mode = (b[p] >> 2) & 3;
            &&& n == 0 ==> components_of(b[p]) == Some(ComponentSelect::ZeroComponent)
            &&& n == 1 ==> components_of(b[p]) == Some(ComponentSelect::OneComponent)
            &&& n == 2 && mode == 0 ==> components_of(b[p]) == Some(
                ComponentSelect::Mask(((b[p] >> 4) & 0xF) as u8),
            )
            &&& n == 2 && mode == 1 ==> components_of(b[p]) == Some(
                ComponentSelect::Swizzle(
                    [
                        ((b[p] >> 4) & 3) as u8,
                        ((b[p] >> 6) & 3) as u8,
                        ((b[p] >> 8) & 3) as u8,
                        ((b[p] >> 10) & 3) as u8,
                    ],
                ),
            )
            &&& n == 2 && mode == 2 ==> components_of(b[p]) == Some(
                ComponentSelect::Scalar(((b[p] >> 4) & 3) as u8),
            )
            &&& n == 2 && mode > 2 || n > 2 ==> operand_at(b, p) is None
        }),
{
}

/// An index of a kind above three is refused, and so is one whose words are missing.
pub proof fn indices_are_of_four_kinds(b: Seq<u32>, p: int, kind: u32)
    ensures
        kind > 3 ==> index_at(b, p, kind) is None,
        p >= b.len() ==> index_at(b, p, kind) is None,
        p + 1 == b.len() && kind == 1 ==> index_at(b, p, kind) is None,
{
}

/// Four bits are a number from minus eight to seven.
pub proof fn texel_offsets_are_signed(w: u32, shift: u32)
    ensures
        ({
            let v = (w >> shift) & 0xF;
            &&& v <= 7 ==> signed_nibble(w, shift) == v
            &&& v > 7 ==> signed_nibble(w, shift) == v - 16
            &&& -8 <= signed_nibble(w, shift) <= 7
        }),
{
    lemma_mask(w, shift, 0xF);
}

} // verus!
