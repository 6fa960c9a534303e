//! Programs made from bytes, to try the text format with.
//!
//! Every choice is taken from the bytes in turn, so the same bytes always give
//! the same program, and bytes that run out count as nought.

use arbitrary::Unstructured;
use vstd::prelude::*;

use crate::shex::ir::{
    ComponentSelect, IndexModel, Indices, Instruction, InstructionKind, InstructionModel, KindModel,
    Modifiers, Opcode, Operand, OperandIndex, OperandModel, Operands, Program, ProgramModel,
    RegisterType, SmallU32Vec, index_models, instruction_models, lemma_operand_model,
    operand_models,
};

verus! {

// ---------------------------------------------------------------------------
// Choices
// ---------------------------------------------------------------------------

/// The source of choices of `arbitrary`.
#[verifier::external_type_specification]
#[verifier::external_body]
pub struct ExUnstructured<'a>(Unstructured<'a>);

/// The bytes that are left to choose from.
pub uninterp spec fn rest_of(u: Unstructured<'_>) -> Seq<u8>;

/// How many bytes a choice among `delta` more numbers than one takes.
pub open spec fn bytes_wanted(delta: u32) -> int {
    if delta == 0 {
        0
    } else if delta < 256 {
        1
    } else {
        2
    }
}

/// The number in the first bytes, the first of them the highest.
pub open spec fn front_number(d: Seq<u8>, n: int) -> int {
    if n <= 0 || d.len() == 0 {
        0
    } else if n == 1 || d.len() == 1 {
        d[0] as int
    } else {
        256 * d[0] + d[1]
    }
}

/// What is left behind the first `n` bytes, or behind all.
pub open spec fn behind(d: Seq<u8>, n: int) -> Seq<u8> {
    if n <= d.len() {
        d.skip(n)
    } else {
        Seq::empty()
    }
}

/// A number from `lo` up to `hi`.
pub open spec fn drawn(d: Seq<u8>, lo: u32, hi: u32) -> (u32, Seq<u8>) {
    let delta = (hi - lo) as u32;
    let n = bytes_wanted(delta);
    ((lo + front_number(d, n) % (delta + 1)) as u32, behind(d, n))
}

/// A truth value.
pub open spec fn flag_drawn(d: Seq<u8>) -> (bool, Seq<u8>) {
    (front_number(d, 1) % 2 == 1, behind(d, 1))
}

/// Byte number `i`, nought where there is none.
pub open spec fn byte_or_zero(d: Seq<u8>, i: int) -> int {
    if i < d.len() {
        d[i] as int
    } else {
        0
    }
}

/// A word, its lowest byte first.
pub open spec fn word_drawn(d: Seq<u8>) -> (u32, Seq<u8>) {
    (
        (byte_or_zero(d, 0) + 0x100 * byte_or_zero(d, 1) + 0x1_0000 * byte_or_zero(d, 2)
            + 0x100_0000 * byte_or_zero(d, 3)) as u32,
        behind(d, 4),
    )
}

/// `Unstructured::new`: choices from those bytes.
#[verifier::external_body]
pub(crate) fn choices<'a>(data: &'a [u8]) -> (r: Unstructured<'a>)
    ensures
        rest_of(r) == data@,
{
    Unstructured::new(data)
}

/// `Unstructured::int_in_range` on words: takes as many bytes as the range needs,
/// as far as there are any, and gives their number modulo the size of the range,
/// above its start. It fails for no range that holds a number.
#[verifier::external_body]
pub(crate) fn pick(u: &mut Unstructured<'_>, lo: u32, hi: u32) -> (r: u32)
    requires
        lo <= hi,
        hi - lo <= 0xffff,
    ensures
        r == drawn(rest_of(*old(u)), lo, hi).0,
        rest_of(*final(u)) == drawn(rest_of(*old(u)), lo, hi).1,
{
    u.int_in_range(lo..=hi).unwrap_or(lo)
}

/// `Unstructured::arbitrary` for `bool`: takes a byte, nought where there is
/// none, and tells whether it is odd. It never fails.
#[verifier::external_body]
pub(crate) fn flip(u: &mut Unstructured<'_>) -> (r: bool)
    ensures
        r == flag_drawn(rest_of(*old(u))).0,
        rest_of(*final(u)) == flag_drawn(rest_of(*old(u))).1,
{
    u.arbitrary::<bool>().unwrap_or_default()
}

/// `Unstructured::arbitrary` for `u32`: takes four bytes, noughts where there
/// are none, as a little-endian word. It never fails.
#[verifier::external_body]
pub(crate) fn any_word(u: &mut Unstructured<'_>) -> (r: u32)
    ensures
        r == word_drawn(rest_of(*old(u))).0,
        rest_of(*final(u)) == word_drawn(rest_of(*old(u))).1,
{
    u.arbitrary::<u32>().unwrap_or_default()
}

/// `Unstructured::choose`: the choice whose number is taken from the bytes as
/// `int_in_range` takes it. It fails only where there is nothing to choose.
#[verifier::external_body]
pub(crate) fn choose_from<T: Copy>(u: &mut Unstructured<'_>, all: &[T]) -> (r: T)
    requires
        0 < all@.len() <= 256,
    ensures
        r == all@[drawn(rest_of(*old(u)), 0, (all@.len() - 1) as u32).0 as int],
        rest_of(*final(u)) == drawn(rest_of(*old(u)), 0, (all@.len() - 1) as u32).1,
{
    *u.choose(all).unwrap_or(&all[0])
}

/// A number that is drawn lies in its range.
pub proof fn lemma_drawn(d: Seq<u8>, lo: u32, hi: u32)
    requires
        lo <= hi,
        hi - lo <= 0xffff,
    ensures
        lo <= drawn(d, lo, hi).0 <= hi,
{
    let n = front_number(d, bytes_wanted((hi - lo) as u32));
    let m = hi - lo + 1;
    assert(0 <= n % m < m) by (nonlinear_arith)
        requires
            n >= 0,
            m > 0,
    ;
}

// ---------------------------------------------------------------------------
// Operands
// ---------------------------------------------------------------------------

/// Components: none, one, a mask, a swizzle or a scalar.
pub open spec fn components_drawn(d: Seq<u8>) -> (ComponentSelect, Seq<u8>) {
    let (k, d1) = drawn(d, 0, 4);
    if k == 0 {
        (ComponentSelect::ZeroComponent, d1)
    } else if k == 1 {
        (ComponentSelect::OneComponent, d1)
    } else if k == 2 {
        let (m, d2) = drawn(d1, 0, 15);
        (ComponentSelect::Mask(m as u8), d2)
    } else if k == 3 {
        let (x, d2) = drawn(d1, 0, 3);
        let (y, d3) = drawn(d2, 0, 3);
        let (z, d4) = drawn(d3, 0, 3);
        let (w, d5) = drawn(d4, 0, 3);
        (ComponentSelect::Swizzle([x as u8, y as u8, z as u8, w as u8]), d5)
    } else {
        let (c, d2) = drawn(d1, 0, 3);
        (ComponentSelect::Scalar(c as u8), d2)
    }
}

/// Make components.
pub fn gen_components(u: &mut Unstructured<'_>) -> (r: ComponentSelect)
    ensures
        r == components_drawn(rest_of(*old(u))).0,
        rest_of(*final(u)) == components_drawn(rest_of(*old(u))).1,
{
    let k: u32 = pick(u, 0, 4);
    if k == 0 {
        ComponentSelect::ZeroComponent
    } else if k == 1 {
        ComponentSelect::OneComponent
    } else if k == 2 {
        let ghost d = rest_of(*u);
        let m: u32 = pick(u, 0, 15);
        proof {
            lemma_drawn(d, 0, 15);
        }
        ComponentSelect::Mask(m as u8)
    } else if k == 3 {
        let ghost d1 = rest_of(*u);
        let x: u32 = pick(u, 0, 3);
        let ghost d2 = rest_of(*u);
        let y: u32 = pick(u, 0, 3);
        let ghost d3 = rest_of(*u);
        let z: u32 = pick(u, 0, 3);
        let ghost d4 = rest_of(*u);
        let w: u32 = pick(u, 0, 3);
        proof {
            lemma_drawn(d1, 0, 3);
            lemma_drawn(d2, 0, 3);
            lemma_drawn(d3, 0, 3);
            lemma_drawn(d4, 0, 3);
        }
        ComponentSelect::Swizzle([x as u8, y as u8, z as u8, w as u8])
    } else {
        let ghost d = rest_of(*u);
        let c: u32 = pick(u, 0, 3);
        proof {
            lemma_drawn(d, 0, 3);
        }
        ComponentSelect::Scalar(c as u8)
    }
}

/// A temporary register, as it stands in an index.
pub open spec fn simple_drawn(d: Seq<u8>) -> (OperandModel, Seq<u8>) {
    let (i, d1) = drawn(d, 0, 7);
    let (c, d2) = drawn(d1, 0, 3);
    let (negate, d3) = flag_drawn(d2);
    (
        OperandModel {
            reg_type: RegisterType::Temp,
            components: ComponentSelect::Scalar(c as u8),
            negate,
            abs: false,
            indices: seq![IndexModel::Imm32(i)],
            immediate_values: Seq::empty(),
        },
        d3,
    )
}

fn no_words() -> (r: SmallU32Vec)
    ensures
        r@ == Seq::<u32>::empty(),
{
    let none: Vec<u32> = Vec::new();
    let r = SmallU32Vec::from_words(none.as_slice());
    assert(r@ =~= Seq::empty());
    r
}

/// Make a temporary register, as it stands in an index.
pub fn gen_simple_operand(u: &mut Unstructured<'_>) -> (r: Operand)
    ensures
        r.model() == simple_drawn(rest_of(*old(u))).0,
        rest_of(*final(u)) == simple_drawn(rest_of(*old(u))).1,
{
    let i: u32 = pick(u, 0, 7);
    let mut indices: Indices = Vec::new();
    indices.push(OperandIndex::Imm32(i));
    let ghost d = rest_of(*u);
    let c: u32 = pick(u, 0, 3);
    proof {
        lemma_drawn(d, 0, 3);
    }
    let negate = flip(u);
    let r = Operand {
        reg_type: RegisterType::Temp,
        components: ComponentSelect::Scalar(c as u8),
        negate,
        abs: false,
        indices,
        immediate_values: no_words(),
    };
    proof {
        lemma_operand_model(r);
        assert(index_models(r.indices@) =~= seq![IndexModel::Imm32(i)]);
    }
    r
}

/// An index: a number, or a register where `relative`.
pub open spec fn index_drawn(d: Seq<u8>, relative: bool) -> (IndexModel, Seq<u8>) {
    let (k, d1) = drawn(
        d,
        0,
        if relative {
            3
        } else {
            1
        },
    );
    if k == 0 {
        let (v, d2) = drawn(d1, 0, 63);
        (IndexModel::Imm32(v), d2)
    } else if k == 1 {
        let (v, d2) = drawn(d1, 0, 63);
        (IndexModel::Imm64(v as u64), d2)
    } else if k == 2 {
        let (op, d2) = simple_drawn(d1);
        (IndexModel::Relative(Box::new(op)), d2)
    } else {
        let (v, d2) = drawn(d1, 0, 63);
        let (op, d3) = simple_drawn(d2);
        (IndexModel::RelativePlusImm(v, Box::new(op)), d3)
    }
}

/// Make an index.
pub fn gen_index(u: &mut Unstructured<'_>, relative: bool) -> (r: OperandIndex)
    ensures
        r.model() == index_drawn(rest_of(*old(u)), relative).0,
        rest_of(*final(u)) == index_drawn(rest_of(*old(u)), relative).1,
{
    let hi: u32 = if relative {
        3
    } else {
        1
    };
    let k: u32 = pick(u, 0, hi);
    if k == 0 {
        OperandIndex::Imm32(pick(u, 0, 63))
    } else if k == 1 {
        let v: u32 = pick(u, 0, 63);
        OperandIndex::Imm64(v as u64)
    } else if k == 2 {
        OperandIndex::Relative(Box::new(gen_simple_operand(u)))
    } else {
        let v: u32 = pick(u, 0, 63);
        OperandIndex::RelativePlusImm(v, Box::new(gen_simple_operand(u)))
    }
}

/// The first `n` of `all` indices; only the last may be a register.
pub open spec fn indices_drawn(d: Seq<u8>, n: int, all: int) -> (Seq<IndexModel>, Seq<u8>)
    decreases n,
{
    if n <= 0 {
        (Seq::empty(), d)
    } else {
        let (ix, d1) = indices_drawn(d, n - 1, all);
        let (i, d2) = index_drawn(d1, n == all);
        (ix.push(i), d2)
    }
}

/// `n` words.
pub open spec fn words_drawn(d: Seq<u8>, n: int) -> (Seq<u32>, Seq<u8>)
    decreases n,
{
    if n <= 0 {
        (Seq::empty(), d)
    } else {
        let (ws, d1) = words_drawn(d, n - 1);
        let (w, d2) = word_drawn(d1);
        (ws.push(w), d2)
    }
}

/// How many values an immediate operand has, and its components.
pub open spec fn immediate_drawn(d: Seq<u8>) -> (int, ComponentSelect, Seq<u8>) {
    let (k, d1) = drawn(d, 0, 2);
    if k == 0 {
        (0, ComponentSelect::ZeroComponent, d1)
    } else if k == 1 {
        (1, ComponentSelect::OneComponent, d1)
    } else {
        let (c, d2) = components_drawn(d1);
        (4, c, d2)
    }
}

/// An operand: one in eight is immediate, the others are of any register file.
pub open spec fn operand_drawn(d: Seq<u8>) -> (OperandModel, Seq<u8>) {
    let (k, d1) = drawn(d, 0, 7);
    if k == 0 {
        let (n, components, d2) = immediate_drawn(d1);
        let (immediate_values, d3) = words_drawn(d2, n);
        let (negate, d4) = flag_drawn(d3);
        let (abs, d5) = flag_drawn(d4);
        (
            OperandModel {
                reg_type: RegisterType::Immediate32,
                components,
                negate,
                abs,
                indices: Seq::empty(),
                immediate_values,
            },
            d5,
        )
    } else {
        let (v, d2) = drawn(d1, 0, 45);
        let (n, d3) = drawn(d2, 0, 3);
        let (indices, d4) = indices_drawn(d3, n as int, n as int);
        let (components, d5) = components_drawn(d4);
        let (negate, d6) = flag_drawn(d5);
        let (abs, d7) = flag_drawn(d6);
        (
            OperandModel {
                reg_type: register_drawn(v),
                components,
                negate,
                abs,
                indices,
                immediate_values: Seq::empty(),
            },
            d7,
        )
    }
}

/// The register file with that number, a temporary in place of an immediate.
pub open spec fn register_drawn(v: u32) -> RegisterType {
    let r = RegisterType::spec_from_u32(v);
    if r == RegisterType::Immediate32 || r == RegisterType::Immediate64 {
        RegisterType::Temp
    } else {
        r
    }
}

fn gen_words(u: &mut Unstructured<'_>, n: u32) -> (r: Vec<u32>)
    ensures
        r@ == words_drawn(rest_of(*old(u)), n as int).0,
        rest_of(*final(u)) == words_drawn(rest_of(*old(u)), n as int).1,
{
    let ghost d = rest_of(*u);
    let mut out: Vec<u32> = Vec::new();
    let mut i: u32 = 0;
    while i < n
        invariant
            i <= n,
            out@ == words_drawn(d, i as int).0,
            rest_of(*u) == words_drawn(d, i as int).1,
        decreases n - i,
    {
        out.push(any_word(u));
        i += 1;
    }
    out
}

fn gen_indices(u: &mut Unstructured<'_>, n: u32) -> (r: Indices)
    ensures
        index_models(r@) == indices_drawn(rest_of(*old(u)), n as int, n as int).0,
        rest_of(*final(u)) == indices_drawn(rest_of(*old(u)), n as int, n as int).1,
{
    let ghost d = rest_of(*u);
    let mut out: Indices = Vec::new();
    let mut i: u32 = 0;
    assert(index_models(out@) =~= Seq::empty());
    while i < n
        invariant
            i <= n,
            index_models(out@) == indices_drawn(d, i as int, n as int).0,
            rest_of(*u) == indices_drawn(d, i as int, n as int).1,
        decreases n - i,
    {
        let ghost before = out@;
        let ix = gen_index(u, i + 1 == n);
        out.push(ix);
        assert(index_models(out@) =~= index_models(before).push(ix.model()));
        i += 1;
    }
    out
}

/// Make an operand.
pub fn gen_operand(u: &mut Unstructured<'_>) -> (r: Operand)
    ensures
        r.model() == operand_drawn(rest_of(*old(u))).0,
        rest_of(*final(u)) == operand_drawn(rest_of(*old(u))).1,
{
    if pick(u, 0, 7) == 0 {
        let k: u32 = pick(u, 0, 2);
        let (n, components) = if k == 0 {
            (0u32, ComponentSelect::ZeroComponent)
        } else if k == 1 {
            (1u32, ComponentSelect::OneComponent)
        } else {
            (4u32, gen_components(u))
        };
        let values = gen_words(u, n);
        let negate = flip(u);
        let abs = flip(u);
        let r = Operand {
            reg_type: RegisterType::Immediate32,
            components,
            negate,
            abs,
            indices: Vec::new(),
            immediate_values: SmallU32Vec::from_words(values.as_slice()),
        };
        proof {
            lemma_operand_model(r);
            assert(index_models(r.indices@) =~= Seq::empty());
        }
        return r;
    }
    let v: u32 = pick(u, 0, 45);
    let reg = RegisterType::from_u32(v);
    let reg_type = if reg == RegisterType::Immediate32 || reg == RegisterType::Immediate64 {
        RegisterType::Temp
    } else {
        reg
    };
    let n: u32 = pick(u, 0, 3);
    let indices = gen_indices(u, n);
    let components = gen_components(u);
    let negate = flip(u);
    let abs = flip(u);
    let r = Operand {
        reg_type,
        components,
        negate,
        abs,
        indices,
        immediate_values: no_words(),
    };
    proof {
        lemma_operand_model(r);
    }
    r
}

// ---------------------------------------------------------------------------
// Instructions and programs
// ---------------------------------------------------------------------------

/// The opcodes that are made.
pub open spec fn made_opcodes() -> Seq<Opcode> {
    seq![
        Opcode::Add,
        Opcode::Mul,
        Opcode::Mad,
        Opcode::Mov,
        Opcode::Movc,
        Opcode::Dp2,
        Opcode::Dp3,
        Opcode::Dp4,
        Opcode::Min,
        Opcode::Max,
        Opcode::And,
        Opcode::Or,
        Opcode::Ishl,
        Opcode::Iadd,
        Opcode::Sample,
        Opcode::SampleL,
        Opcode::Ld,
        Opcode::Ret,
        Opcode::If,
        Opcode::EndIf,
    ]
}

/// An opcode: one in twenty without a name.
pub open spec fn opcode_drawn(d: Seq<u8>) -> (Opcode, Seq<u8>) {
    let (k, d1) = drawn(d, 0, 19);
    if k == 0 {
        let (v, d2) = drawn(d1, 218, 0x7FF);
        (Opcode::Unknown(v), d2)
    } else {
        let (i, d2) = drawn(d1, 0, 19);
        (made_opcodes()[i as int], d2)
    }
}

/// `n` operands.
pub open spec fn operands_drawn(d: Seq<u8>, n: int) -> (Seq<OperandModel>, Seq<u8>)
    decreases n,
{
    if n <= 0 {
        (Seq::empty(), d)
    } else {
        let (ops, d1) = operands_drawn(d, n - 1);
        let (op, d2) = operand_drawn(d1);
        (ops.push(op), d2)
    }
}

/// What a size query returns, in one of four instructions.
pub open spec fn resinfo_drawn(d: Seq<u8>) -> (Option<u8>, Seq<u8>) {
    let (k, d1) = drawn(d, 0, 3);
    if k == 0 {
        let (v, d2) = drawn(d1, 0, 2);
        (Some(v as u8), d2)
    } else {
        (None, d1)
    }
}

/// What a barrier synchronises, in one of four instructions.
pub open spec fn sync_drawn(d: Seq<u8>) -> (u8, Seq<u8>) {
    let (k, d1) = drawn(d, 0, 3);
    if k == 0 {
        let (v, d2) = drawn(d1, 0, 15);
        (v as u8, d2)
    } else {
        (0, d1)
    }
}

/// A texel offset.
pub open spec fn offset_drawn(d: Seq<u8>) -> (i8, Seq<u8>) {
    let (v, d1) = drawn(d, 0, 15);
    ((v - 8) as i8, d1)
}

/// Texel offsets, in one of four instructions.
pub open spec fn offsets_drawn(d: Seq<u8>) -> (Option<[i8; 3]>, Seq<u8>) {
    let (k, d1) = drawn(d, 0, 3);
    if k == 0 {
        let (a, d2) = offset_drawn(d1);
        let (b, d3) = offset_drawn(d2);
        let (c, d4) = offset_drawn(d3);
        (Some([a, b, c]), d4)
    } else {
        (None, d1)
    }
}

/// A resource dimension, in one of four instructions.
pub open spec fn dim_drawn(d: Seq<u8>) -> (Option<u32>, Seq<u8>) {
    let (k, d1) = drawn(d, 0, 3);
    if k == 0 {
        let (a, d2) = drawn(d1, 0, 12);
        let (b, d3) = drawn(d2, 0, 3);
        (Some(2 | (a << 6) | (b << 11)), d3)
    } else {
        (None, d1)
    }
}

/// Resource return types, in one of four instructions.
pub open spec fn types_drawn(d: Seq<u8>) -> (Option<u32>, Seq<u8>) {
    let (k, d1) = drawn(d, 0, 3);
    if k == 0 {
        let (a, d2) = drawn(d1, 0, 15);
        let (b, d3) = drawn(d2, 0, 15);
        let (c, d4) = drawn(d3, 0, 15);
        let (e, d5) = drawn(d4, 0, 15);
        (Some(3 | (a << 6) | (b << 10) | (c << 14) | (e << 18)), d5)
    } else {
        (None, d1)
    }
}

/// The modifiers of an instruction.
pub open spec fn modifiers_drawn(d: Seq<u8>) -> (Modifiers, Seq<u8>) {
    let (saturate, d1) = flag_drawn(d);
    let (test_nonzero, d2) = flag_drawn(d1);
    let (pm, d3) = drawn(d2, 0, 15);
    let (resinfo_return_type, d4) = resinfo_drawn(d3);
    let (sync_flags, d5) = sync_drawn(d4);
    let (tex_offsets, d6) = offsets_drawn(d5);
    let (resource_dim, d7) = dim_drawn(d6);
    let (resource_return_type, d8) = types_drawn(d7);
    (
        Modifiers {
            saturate,
            test_nonzero,
            precise_mask: pm as u8,
            resinfo_return_type,
            sync_flags,
            tex_offsets,
            resource_dim,
            resource_return_type,
        },
        d8,
    )
}

/// An instruction.
pub open spec fn instruction_drawn(d: Seq<u8>) -> (InstructionModel, Seq<u8>) {
    let (opcode, d1) = opcode_drawn(d);
    let (n, d2) = drawn(d1, 0, 4);
    let (operands, d3) = operands_drawn(d2, n as int);
    let (mods, d4) = modifiers_drawn(d3);
    (InstructionModel { opcode, mods, kind: KindModel::Generic { operands } }, d4)
}

/// `n` instructions.
pub open spec fn instructions_drawn(d: Seq<u8>, n: int) -> (Seq<InstructionModel>, Seq<u8>)
    decreases n,
{
    if n <= 0 {
        (Seq::empty(), d)
    } else {
        let (is, d1) = instructions_drawn(d, n - 1);
        let (i, d2) = instruction_drawn(d1);
        (is.push(i), d2)
    }
}

/// The stages that are made.
pub open spec fn made_stages() -> Seq<Seq<char>> {
    seq!["ps"@, "vs"@, "gs"@, "hs"@, "ds"@, "cs"@]
}

/// A program of one to eight instructions.
pub open spec fn program_drawn(d: Seq<u8>) -> ProgramModel {
    let (s, d1) = drawn(d, 0, 5);
    let (n, d2) = drawn(d1, 1, 8);
    let (instructions, d3) = instructions_drawn(d2, n as int);
    let (minor_version, d4) = drawn(d3, 0, 1);
    let (later, _) = flag_drawn(d4);
    ProgramModel {
        shader_type: made_stages()[s as int],
        major_version: 5,
        minor_version,
        instructions,
        fourcc: if later {
            seq![0x53u8, 0x48u8, 0x45u8, 0x58u8]
        } else {
            seq![0x53u8, 0x48u8, 0x44u8, 0x52u8]
        },
    }
}

fn gen_opcode(u: &mut Unstructured<'_>) -> (r: Opcode)
    ensures
        r == opcode_drawn(rest_of(*old(u))).0,
        rest_of(*final(u)) == opcode_drawn(rest_of(*old(u))).1,
{
    if pick(u, 0, 19) == 0 {
        Opcode::Unknown(pick(u, 218, 0x7FF))
    } else {
        let all = [
            Opcode::Add,
            Opcode::Mul,
            Opcode::Mad,
            Opcode::Mov,
            Opcode::Movc,
            Opcode::Dp2,
            Opcode::Dp3,
            Opcode::Dp4,
            Opcode::Min,
            Opcode::Max,
            Opcode::And,
            Opcode::Or,
            Opcode::Ishl,
            Opcode::Iadd,
            Opcode::Sample,
            Opcode::SampleL,
            Opcode::Ld,
            Opcode::Ret,
            Opcode::If,
            Opcode::EndIf,
        ];
        assert(all@ =~= made_opcodes());
        choose_from(u, &all)
    }
}

fn gen_operands(u: &mut Unstructured<'_>, n: u32) -> (r: Operands)
    ensures
        operand_models(r@) == operands_drawn(rest_of(*old(u)), n as int).0,
        rest_of(*final(u)) == operands_drawn(rest_of(*old(u)), n as int).1,
{
    let ghost d = rest_of(*u);
    let mut out = Operands::new();
    let mut i: u32 = 0;
    assert(operand_models(out@) =~= Seq::empty());
    while i < n
        invariant
            i <= n,
            operand_models(out@) == operands_drawn(d, i as int).0,
            rest_of(*u) == operands_drawn(d, i as int).1,
        decreases n - i,
    {
        let ghost before = out@;
        let op = gen_operand(u);
        out.push(op);
        assert(operand_models(out@) =~= operand_models(before).push(op.model()));
        i += 1;
    }
    out
}

fn gen_resinfo(u: &mut Unstructured<'_>) -> (r: Option<u8>)
    ensures
        r == resinfo_drawn(rest_of(*old(u))).0,
        rest_of(*final(u)) == resinfo_drawn(rest_of(*old(u))).1,
{
    if pick(u, 0, 3) == 0 {
        let ghost d = rest_of(*u);
        let v: u32 = pick(u, 0, 2);
        proof {
            lemma_drawn(d, 0, 2);
        }
        Some(v as u8)
    } else {
        None
    }
}

fn gen_sync(u: &mut Unstructured<'_>) -> (r: u8)
    ensures
        r == sync_drawn(rest_of(*old(u))).0,
        rest_of(*final(u)) == sync_drawn(rest_of(*old(u))).1,
{
    if pick(u, 0, 3) == 0 {
        let ghost d = rest_of(*u);
        let v: u32 = pick(u, 0, 15);
        proof {
            lemma_drawn(d, 0, 15);
        }
        v as u8
    } else {
        0
    }
}

fn gen_offset(u: &mut Unstructured<'_>) -> (r: i8)
    ensures
        r == offset_drawn(rest_of(*old(u))).0,
        rest_of(*final(u)) == offset_drawn(rest_of(*old(u))).1,
{
    let ghost d = rest_of(*u);
    let v: u32 = pick(u, 0, 15);
    proof {
        lemma_drawn(d, 0, 15);
    }
    (v as i32 - 8) as i8
}

fn gen_offsets(u: &mut Unstructured<'_>) -> (r: Option<[i8; 3]>)
    ensures
        r == offsets_drawn(rest_of(*old(u))).0,
        rest_of(*final(u)) == offsets_drawn(rest_of(*old(u))).1,
{
    if pick(u, 0, 3) == 0 {
        let a: i8 = gen_offset(u);
        let b: i8 = gen_offset(u);
        let c: i8 = gen_offset(u);
        Some([a, b, c])
    } else {
        None
    }
}

fn gen_dim(u: &mut Unstructured<'_>) -> (r: Option<u32>)
    ensures
        r == dim_drawn(rest_of(*old(u))).0,
        rest_of(*final(u)) == dim_drawn(rest_of(*old(u))).1,
{
    if pick(u, 0, 3) == 0 {
        let a: u32 = pick(u, 0, 12);
        let b: u32 = pick(u, 0, 3);
        Some(2 | (a << 6) | (b << 11))
    } else {
        None
    }
}

fn gen_types(u: &mut Unstructured<'_>) -> (r: Option<u32>)
    ensures
        r == types_drawn(rest_of(*old(u))).0,
        rest_of(*final(u)) == types_drawn(rest_of(*old(u))).1,
{
    if pick(u, 0, 3) == 0 {
        let a: u32 = pick(u, 0, 15);
        let b: u32 = pick(u, 0, 15);
        let c: u32 = pick(u, 0, 15);
        let e: u32 = pick(u, 0, 15);
        Some(3 | (a << 6) | (b << 10) | (c << 14) | (e << 18))
    } else {
        None
    }
}

/// Make an instruction of up to four operands.
pub fn gen_instruction(u: &mut Unstructured<'_>) -> (r: Instruction)
    ensures
        r.model() == instruction_drawn(rest_of(*old(u))).0,
        rest_of(*final(u)) == instruction_drawn(rest_of(*old(u))).1,
{
    let opcode = gen_opcode(u);
    let n: u32 = pick(u, 0, 4);
    let operands = gen_operands(u, n);
    let saturate = flip(u);
    let test_nonzero = flip(u);
    let ghost d = rest_of(*u);
    let pm: u32 = pick(u, 0, 15);
    proof {
        lemma_drawn(d, 0, 15);
    }
    let resinfo_return_type = gen_resinfo(u);
    let sync_flags: u8 = gen_sync(u);
    let tex_offsets = gen_offsets(u);
    let resource_dim = gen_dim(u);
    let resource_return_type = gen_types(u);
    Instruction {
        opcode,
        saturate,
        test_nonzero,
        precise_mask: pm as u8,
        resinfo_return_type,
        sync_flags,
        tex_offsets,
        resource_dim,
        resource_return_type,
        kind: InstructionKind::Generic { operands },
    }
}

fn gen_instructions(u: &mut Unstructured<'_>, n: u32) -> (r: Vec<Instruction>)
    ensures
        instruction_models(r@) == instructions_drawn(rest_of(*old(u)), n as int).0,
        rest_of(*final(u)) == instructions_drawn(rest_of(*old(u)), n as int).1,
{
    let ghost d = rest_of(*u);
    let mut out: Vec<Instruction> = Vec::new();
    let mut i: u32 = 0;
    assert(instruction_models(out@) =~= Seq::empty());
    while i < n
        invariant
            i <= n,
            instruction_models(out@) == instructions_drawn(d, i as int).0,
            rest_of(*u) == instructions_drawn(d, i as int).1,
        decreases n - i,
    {
        let ghost before = out@;
        let x = gen_instruction(u);
        out.push(x);
        assert(instruction_models(out@) =~= instruction_models(before).push(x.model()));
        i += 1;
    }
    out
}

/// Make a program from bytes.
pub fn gen_program(data: &[u8]) -> (r: Program)
    ensures
        r.model() == program_drawn(data@),
        r.warnings@.len() == 0,
{
    let mut u = choices(data);
    let stages = ["ps", "vs", "gs", "hs", "ds", "cs"];
    proof {
        lemma_drawn(data@, 0, 5);
    }
    let shader_type = choose_from(&mut u, &stages);
    let n: u32 = pick(&mut u, 1, 8);
    let instructions = gen_instructions(&mut u, n);
    let minor_version: u32 = pick(&mut u, 0, 1);
    let fourcc = if flip(&mut u) {
        [0x53u8, 0x48u8, 0x45u8, 0x58u8]
    } else {
        [0x53u8, 0x48u8, 0x44u8, 0x52u8]
    };
    assert(fourcc@ =~= program_drawn(data@).fourcc);
    Program {
        shader_type,
        major_version: 5,
        minor_version,
        instructions,
        warnings: Vec::new(),
        fourcc,
    }
}

} // verus!
