//! How operands, modifiers and declarations are written.

use vstd::prelude::*;

use crate::floats::{Spellings, spelled};
use crate::grammar::shex::text::{
    components_text, core_text, custom_data_text, hex8_text, imm_text, imms_text, instruction_text,
    instructions_text, mod_nz, mod_off, mod_pm, mod_res, mod_ri, mod_rt, mod_sat, mod_sf, mask_text,
    mnemonic_text, modifiers_text, offsets_text, operand_list_text, operand_text, profile_text,
    program_text, raw_text, resource_dim_text, resource_rt_text, rd_dim, rd_stride, rd_word,
    return_type_text, return_types_text, rows_text, rr_part, rr_word, spaced_operands_text,
};
use crate::grammar::tables::{axis_char, dimensions, table_name};
use crate::meaning::keys::lemma_mask_bits;
use crate::numerals::{dec_text, hex_padded, hex_text, int_text};
use crate::shex::ir::{
    ComponentSelect, CustomDataType, ImmediateType, InstructionModel, KindModel, Modifiers, Opcode,
    OperandModel, ProgramModel, RegisterType, ReturnType,
};
use crate::shex::opcodes::imm_type_of;

verus! {

// ---------------------------------------------------------------------------
// Operands
// ---------------------------------------------------------------------------

/// A component's letter, counted from nought: x, y, z and w.
pub open spec fn letter(k: int) -> char {
    seq!['x', 'y', 'z', 'w'][k]
}

/// A single letter where it is wanted.
pub open spec fn letter_if(b: bool, c: char) -> Seq<char> {
    if b {
        seq![c]
    } else {
        Seq::empty()
    }
}

/// Swizzles and scalars stand behind a dot, each selected component by its letter, in
/// order; masks behind a colon, with the letters of their bits in ascending order.
pub proof fn components_are_written(c: u8, s: [u8; 4], m: u8, k: int)
    requires
        c < 4,
        s[0] < 4,
        s[1] < 4,
        s[2] < 4,
        s[3] < 4,
        m < 16,
        0 <= k < 4,
    ensures
        components_text(ComponentSelect::ZeroComponent).len() == 0,
        components_text(ComponentSelect::OneComponent) == seq!['.', '1'],
        components_text(ComponentSelect::Scalar(c)) == seq!['.', letter(c as int)],
        ({
            let t = components_text(ComponentSelect::Swizzle(s));
            &&& t.len() == 5
            &&& t[0] == '.'
            &&& t[k + 1] == letter(s[k] as int)
        }),
        components_text(ComponentSelect::Mask(m)) == seq![':'] + letter_if(m % 2 == 1, 'x')
            + letter_if(m / 2 % 2 == 1, 'y') + letter_if(m / 4 % 2 == 1, 'z') + letter_if(
            m / 8 % 2 == 1,
            'w',
        ),
{
    reveal_strlit(".1");
    assert(".1"@ =~= seq!['.', '1']);
    lemma_mask_bits(m);
    reveal_with_fuel(mask_text, 6);
    assert forall|i: int| 0 <= i < 4 implies #[trigger] axis_char(i) == letter(i) by {
        assert(i == 0 || i == 1 || i == 2 || i == 3);
    }
    assert(c as int % 4 == c);
    assert(s[0] % 4 == s[0] && s[1] % 4 == s[1] && s[2] % 4 == s[2] && s[3] % 4 == s[3]);
    assert(k == 0 || k == 1 || k == 2 || k == 3);
    assert(components_text(ComponentSelect::Mask(m)) =~= seq![':'] + letter_if(m % 2 == 1, 'x')
        + letter_if(m / 2 % 2 == 1, 'y') + letter_if(m / 4 % 2 == 1, 'z') + letter_if(
        m / 8 % 2 == 1,
        'w',
    ));
}

/// A negated operand is its text behind a minus sign, and an absolute value stands
/// between bars, inside the sign.
pub proof fn signs_are_written(op: OperandModel, ty: ImmediateType, ft: Spellings)
    ensures
        operand_text(OperandModel { negate: true, ..op }, ty, ft) == seq!['-'] + operand_text(
            OperandModel { negate: false, ..op },
            ty,
            ft,
        ),
        operand_text(OperandModel { negate: false, abs: true, ..op }, ty, ft) == seq!['|']
            + operand_text(OperandModel { negate: false, abs: false, ..op }, ty, ft) + seq!['|'],
{
    let a = OperandModel { negate: true, ..op };
    let b = OperandModel { negate: false, ..op };
    let c = OperandModel { negate: false, abs: true, ..op };
    let d = OperandModel { negate: false, abs: false, ..op };
    reveal_with_fuel(operand_text, 2);
    reveal_with_fuel(core_text, 2);
    assert(core_text(a, ty, ft) == core_text(b, ty, ft));
    assert(core_text(c, ty, ft) == core_text(d, ty, ft));
    assert(operand_text(a, ty, ft) =~= seq!['-'] + operand_text(b, ty, ft));
    assert(operand_text(c, ty, ft) =~= seq!['|'] + operand_text(d, ty, ft) + seq!['|']);
}

/// Register, indices and components of an operand without a sign follow each other.
pub proof fn components_follow_registers(op: OperandModel, ty: ImmediateType, ft: Spellings)
    requires
        !op.negate,
        !op.abs,
        op.reg_type != RegisterType::Immediate32,
        op.reg_type != RegisterType::Immediate64,
    ensures
        operand_text(op, ty, ft) == core_text(op, ty, ft) + components_text(op.components),
{
    reveal_with_fuel(operand_text, 2);
    assert(operand_text(op, ty, ft) =~= core_text(op, ty, ft) + components_text(op.components));
}

/// Immediate values stand in brackets behind an l, or behind a d where they have
/// sixty-four bits; their components are left out where the number of values tells
/// them: one alone has one component, and more have none in their mask.
pub proof fn immediates_are_written(op: OperandModel, ty: ImmediateType, ft: Spellings)
    requires
        !op.negate,
        !op.abs,
        op.indices.len() == 0,
    ensures
        ({
            let v = op.immediate_values;
            let told = v.len() == 1 && op.components == ComponentSelect::OneComponent || v.len()
                > 1 && op.components == ComponentSelect::Mask(0);
            let behind = if told {
                Seq::empty()
            } else {
                components_text(op.components)
            };
            &&& op.reg_type == RegisterType::Immediate32 ==> operand_text(op, ty, ft) == seq![
                'l',
                '(',
            ] + imms_text(v, 0, ty, ft) + seq![')'] + behind
            &&& op.reg_type == RegisterType::Immediate64 ==> operand_text(op, ty, ft) == seq![
                'd',
                '(',
            ] + imms_text(v, 0, ImmediateType::Uint, ft) + seq![')'] + behind
        }),
{
    reveal_with_fuel(operand_text, 2);
    reveal_with_fuel(core_text, 2);
    reveal_strlit("l(");
    reveal_strlit("d(");
    assert("l("@ =~= seq!['l', '(']);
    assert("d("@ =~= seq!['d', '(']);
    let v = op.immediate_values;
    let told = v.len() == 1 && op.components == ComponentSelect::OneComponent || v.len() > 1
        && op.components == ComponentSelect::Mask(0);
    let behind = if told {
        Seq::empty()
    } else {
        components_text(op.components)
    };
    if op.reg_type == RegisterType::Immediate32 {
        assert(operand_text(op, ty, ft) =~= seq!['l', '('] + imms_text(v, 0, ty, ft) + seq![')']
            + behind);
    }
    if op.reg_type == RegisterType::Immediate64 {
        assert(operand_text(op, ty, ft) =~= seq!['d', '('] + imms_text(
            v,
            0,
            ImmediateType::Uint,
            ft,
        ) + seq![')'] + behind);
    }
}

/// One value more stands behind a comma and a space.
pub proof fn values_stand_in_order(v: Seq<u32>, w: u32, ty: ImmediateType, ft: Spellings)
    ensures
        imms_text(seq![w], 0, ty, ft) == imm_text(w, ty, ft),
        v.len() > 0 ==> imms_text(v.push(w), 0, ty, ft) == imms_text(v, 0, ty, ft) + seq![',', ' ']
            + imm_text(w, ty, ft),
{
    reveal_with_fuel(imms_text, 2);
    assert(imms_text(seq![w], 0, ty, ft) =~= imm_text(w, ty, ft));
    if v.len() > 0 {
        lemma_value_behind(v, w, ty, ft, 0);
    }
}

proof fn lemma_value_behind(v: Seq<u32>, w: u32, ty: ImmediateType, ft: Spellings, k: int)
    requires
        0 <= k <= v.len(),
        v.len() > 0,
    ensures
        imms_text(v.push(w), k, ty, ft) == imms_text(v, k, ty, ft) + seq![',', ' '] + imm_text(
            w,
            ty,
            ft,
        ),
    decreases v.len() - k,
{
    reveal_strlit(", ");
    assert(", "@ =~= seq![',', ' ']);
    let u = v.push(w);
    if k < v.len() {
        lemma_value_behind(v, w, ty, ft, k + 1);
    } else {
        assert(imms_text(u, k + 1, ty, ft) =~= Seq::empty());
    }
    assert(imms_text(u, k, ty, ft) =~= imms_text(v, k, ty, ft) + seq![',', ' '] + imm_text(
        w,
        ty,
        ft,
    ));
}

/// A signed value is written in decimal, the two's complement of its word; an
/// unsigned one, and a floating-point one without a spelling, as `0x` and eight
/// hexadecimal digits.
pub proof fn values_are_written(v: u32, ft: Spellings)
    ensures
        v <= 0x7fff_ffff ==> imm_text(v, ImmediateType::Int, ft) == dec_text(v as nat),
        v >= 0x8000_0000 ==> imm_text(v, ImmediateType::Int, ft) == seq!['-'] + dec_text(
            (0x1_0000_0000 - v) as nat,
        ),
        imm_text(v, ImmediateType::Uint, ft) == seq!['0', 'x'] + hex_padded(v as nat, 8),
        spelled(ft, v) is Some ==> imm_text(v, ImmediateType::Float, ft) == spelled(ft, v)->0,
        spelled(ft, v) is None ==> imm_text(v, ImmediateType::Float, ft) == seq!['0', 'x']
            + hex_padded(v as nat, 8),
{
    reveal_strlit("0x");
    assert("0x"@ =~= seq!['0', 'x']);
    if v >= 0x8000_0000 {
        assert(imm_text(v, ImmediateType::Int, ft) =~= seq!['-'] + dec_text(
            (0x1_0000_0000 - v) as nat,
        ));
    }
}

/// The numbers of the opcodes whose immediate values are signed, and of those whose
/// values are raw; the values of all others are floating-point numbers.
pub proof fn opcodes_have_their_kind_of_values(n: u32)
    requires
        n < 0xffff,
    ensures
        ({
            let t = imm_type_of(Opcode::spec_from_u32(n));
            let signed = n == 6 || n == 30 || 32 <= n <= 43 || n == 76 || 173 <= n <= 175 || n == 180 || 186 <= n <= 187;
            let raw = n == 1 || 4 <= n <= 5 || 44 <= n <= 46 || 59 <= n <= 61 || 78 <= n <= 87 || 117 <= n <= 121 || 131 <= n <= 141 || n == 143 || 159 <= n <= 160 || 163 <= n <= 172 || 176 <= n <= 179 || 181 <= n <= 185 || 188 <= n <= 190 || n == 213;
            &&& t is Int == signed
            &&& t is Uint == raw
            &&& t is Float == (!signed && !raw)
        }),
{
}

// ---------------------------------------------------------------------------
// Instructions
// ---------------------------------------------------------------------------

/// The text where it is wanted.
pub open spec fn text_if(b: bool, s: Seq<char>) -> Seq<char> {
    if b {
        s
    } else {
        Seq::empty()
    }
}

/// The modifiers and their order: what a size query returns, clamping, the test for
/// non-zero, precise components, what a barrier synchronises, and behind them texel
/// offsets, resource dimension and return types.
pub proof fn modifiers_are_written(m: Modifiers)
    ensures
        ({
            let near = text_if(
                m.resinfo_return_type is Some,
                "_ri"@ + dec_text(m.resinfo_return_type->0 as nat),
            ) + text_if(m.saturate, "_sat"@) + text_if(m.test_nonzero, "_nz"@) + text_if(
                m.precise_mask != 0,
                "_pm"@ + hex_text(m.precise_mask as nat),
            ) + text_if(m.sync_flags != 0, "_sf"@ + hex_text(m.sync_flags as nat));
            let far = text_if(m.tex_offsets is Some, offsets_text(m.tex_offsets->0)) + text_if(
                m.resource_dim is Some,
                resource_dim_text(m.resource_dim->0),
            ) + text_if(m.resource_return_type is Some, resource_rt_text(m.resource_return_type->0));
            modifiers_text(m) == near + far
        }),
{
    let ri = text_if(
        m.resinfo_return_type is Some,
        "_ri"@ + dec_text(m.resinfo_return_type->0 as nat),
    );
    let sat = text_if(m.saturate, "_sat"@);
    let nz = text_if(m.test_nonzero, "_nz"@);
    let pm = text_if(m.precise_mask != 0, "_pm"@ + hex_text(m.precise_mask as nat));
    let sf = text_if(m.sync_flags != 0, "_sf"@ + hex_text(m.sync_flags as nat));
    let off = text_if(m.tex_offsets is Some, offsets_text(m.tex_offsets->0));
    let res = text_if(m.resource_dim is Some, resource_dim_text(m.resource_dim->0));
    let rt = text_if(
        m.resource_return_type is Some,
        resource_rt_text(m.resource_return_type->0),
    );
    assert(mod_ri(m) == ri && mod_sat(m) == sat && mod_nz(m) == nz && mod_pm(m) == pm && mod_sf(m)
        == sf);
    assert(mod_off(m) == off && mod_res(m) == res && mod_rt(m) == rt);
    lemma_eight(ri, sat, nz, pm, sf, off, res, rt);
}

proof fn lemma_eight(
    a: Seq<char>,
    b: Seq<char>,
    c: Seq<char>,
    d: Seq<char>,
    e: Seq<char>,
    f: Seq<char>,
    g: Seq<char>,
    h: Seq<char>,
)
    ensures
        a + (b + (c + (d + (e + (f + (g + h)))))) == (a + b + c + d + e) + (f + g + h),
{
    let x = f + g + h;
    assert(f + (g + h) =~= x);
    assert(d + (e + x) =~= d + e + x);
    assert(b + (c + (d + e + x)) =~= b + c + d + e + x);
    assert(a + (b + c + d + e + x) =~= (a + b + c + d + e) + x);
}

/// Texel offsets are three signed numbers.
pub proof fn offsets_are_written(u: i8, v: i8, w: i8)
    ensures
        offsets_text([u, v, w]) == "_off("@ + int_text(u as int) + seq![','] + int_text(v as int)
            + seq![','] + int_text(w as int) + seq![')'],
{
    assert(offsets_text([u, v, w]) =~= "_off("@ + int_text(u as int) + seq![','] + int_text(
        v as int,
    ) + seq![','] + int_text(w as int) + seq![')']);
}

/// A word of a resource's dimension is written by the dimension's name, bits 6 to 10,
/// and its stride, the bits above, where it is not nought; a word of return types by
/// the names of the four types, from bit 6 on four bits each, the first lowest.
pub proof fn resource_words_are_written(
    dim: u32,
    stride: u32,
    name: Seq<char>,
    a: u32,
    b: u32,
    c: u32,
    d: u32,
)
    requires
        dim < 0x20,
        0 < stride < 0x10_0000,
        table_name(dimensions(), dim) == Some(name),
        a < 16,
        b < 16,
        c < 16,
        d < 16,
    ensures
        resource_dim_text((2 + 64 * dim) as u32) == "_res("@ + name + seq![')'],
        resource_dim_text((2 + 64 * dim + 2048 * stride) as u32) == "_res("@ + name + ",stride="@
            + dec_text(stride as nat) + seq![')'],
        resource_rt_text((3 + 64 * a + 1024 * b + 16384 * c + 262144 * d) as u32) == "_rt("@
            + return_type_text(ReturnType::spec_from_u32(a)) + seq![','] + return_type_text(
            ReturnType::spec_from_u32(b),
        ) + seq![','] + return_type_text(ReturnType::spec_from_u32(c)) + seq![',']
            + return_type_text(ReturnType::spec_from_u32(d)) + seq![')'],
{
    let rr = (3 + 64 * a + 1024 * b + 16384 * c + 262144 * d) as u32;
    lemma_resource_words(dim, 0, a, b, c, d, (2 + 64 * dim) as u32, rr);
    lemma_resource_words(dim, stride, a, b, c, d, (2 + 64 * dim + 2048 * stride) as u32, rr);
    let ta = return_type_text(ReturnType::spec_from_u32(a));
    let tb = return_type_text(ReturnType::spec_from_u32(b));
    let tc = return_type_text(ReturnType::spec_from_u32(c));
    let td = return_type_text(ReturnType::spec_from_u32(d));
    assert("_rt("@ + (ta + (seq![','] + (tb + (seq![','] + (tc + (seq![','] + td)))))) + seq![')']
        =~= "_rt("@ + ta + seq![','] + tb + seq![','] + tc + seq![','] + td + seq![')']);
}

pub proof fn lemma_resource_words(
    dim: u32,
    stride: u32,
    a: u32,
    b: u32,
    c: u32,
    d: u32,
    rd: u32,
    rr: u32,
)
    requires
        dim < 0x20,
        stride < 0x10_0000,
        a < 16,
        b < 16,
        c < 16,
        d < 16,
        rd == 2 + 64 * dim + 2048 * stride,
        rr == 3 + 64 * a + 1024 * b + 16384 * c + 262144 * d,
    ensures
        rd & 0x3F == 2,
        rd_dim(rd) == dim,
        rd_stride(rd) == stride,
        rd_word(dim, stride) == rd,
        rr & 0x3F == 3,
        rr_part(rr, 0) == a,
        rr_part(rr, 1) == b,
        rr_part(rr, 2) == c,
        rr_part(rr, 3) == d,
        rr_word(a, b, c, d) == rr,
{
    assert(rd & 0x3F == 2 && (rd >> 6) & 0x1F == dim && (rd >> 11) & 0xF_FFFF == stride && 2 | (dim
        << 6) | (stride << 11) == rd && rr & 0x3F == 3 && (rr >> 6) & 0xF == a && (rr >> 10) & 0xF
        == b && (rr >> 14) & 0xF == c && (rr >> 18) & 0xF == d && 3 | (a << 6) | (b << 10) | (c
        << 14) | (d << 18) == rr) by (bit_vector)
        requires
            dim < 0x20,
            stride < 0x10_0000,
            a < 16,
            b < 16,
            c < 16,
            d < 16,
            rd == 2 + 64 * dim + 2048 * stride,
            rr == 3 + 64 * a + 1024 * b + 16384 * c + 262144 * d,
    ;
}

/// An instruction begins with its mnemonic, its modifiers follow, and its operands
/// stand behind a space, each further one behind a comma and a space.
pub proof fn operands_are_listed(
    i: InstructionModel,
    ops: Seq<OperandModel>,
    op: OperandModel,
    ft: Spellings,
)
    ensures
        ({
            let ty = imm_type_of(i.opcode);
            let front = mnemonic_text(i.opcode) + modifiers_text(i.mods);
            let none = InstructionModel { kind: KindModel::Generic { operands: Seq::empty() }, ..i };
            let one = InstructionModel { kind: KindModel::Generic { operands: seq![op] }, ..i };
            let some = InstructionModel { kind: KindModel::Generic { operands: ops }, ..i };
            let more = InstructionModel {
                kind: KindModel::Generic { operands: ops.push(op) },
                ..i
            };
            &&& instruction_text(none, ft) == front
            &&& instruction_text(one, ft) == front + seq![' '] + operand_text(op, ty, ft)
            &&& ops.len() > 0 ==> instruction_text(more, ft) == instruction_text(some, ft) + seq![
                ',',
                ' ',
            ] + operand_text(op, ty, ft)
        }),
{
    let ty = imm_type_of(i.opcode);
    let front = mnemonic_text(i.opcode) + modifiers_text(i.mods);
    reveal_strlit(" ");
    assert(" "@ =~= seq![' ']);
    reveal_with_fuel(operand_list_text, 2);
    assert(front + operand_list_text(Seq::empty(), 0, ty, ft) =~= front);
    assert(front + operand_list_text(seq![op], 0, ty, ft) =~= front + seq![' '] + operand_text(
        op,
        ty,
        ft,
    ));
    if ops.len() > 0 {
        lemma_operand_behind(ops, op, ty, ft, 0);
        assert(front + operand_list_text(ops.push(op), 0, ty, ft) =~= front + operand_list_text(
            ops,
            0,
            ty,
            ft,
        ) + seq![',', ' '] + operand_text(op, ty, ft));
    }
}

proof fn lemma_operand_behind(
    ops: Seq<OperandModel>,
    op: OperandModel,
    ty: ImmediateType,
    ft: Spellings,
    k: int,
)
    requires
        0 <= k <= ops.len(),
        ops.len() > 0,
    ensures
        operand_list_text(ops.push(op), k, ty, ft) == operand_list_text(ops, k, ty, ft) + seq![
            ',',
            ' ',
        ] + operand_text(op, ty, ft),
    decreases ops.len() - k,
{
    reveal_strlit(", ");
    assert(", "@ =~= seq![',', ' ']);
    let u = ops.push(op);
    let x = operand_text(op, ty, ft);
    if k < ops.len() {
        lemma_operand_behind(ops, op, ty, ft, k + 1);
        let y = operand_text(ops[k], ty, ft);
        assert(u[k] == ops[k]);
        lemma_tail(
            (if k == 0 {
                " "@
            } else {
                ", "@
            }) + y,
            operand_list_text(ops, k + 1, ty, ft),
            ", "@,
            x,
        );
    } else {
        assert(u[k] == op);
        assert(operand_list_text(u, k + 1, ty, ft) == Seq::<char>::empty());
        assert(operand_list_text(ops, k, ty, ft) == Seq::<char>::empty());
        assert(operand_list_text(u, k, ty, ft) == ", "@ + x + Seq::<char>::empty());
        lemma_alone(", "@, x);
    }
}

proof fn lemma_tail(a: Seq<char>, b: Seq<char>, c: Seq<char>, d: Seq<char>)
    ensures
        a + (b + c + d) == a + b + c + d,
{
    assert(a + (b + c + d) =~= a + b + c + d);
}

proof fn lemma_alone(a: Seq<char>, b: Seq<char>)
    ensures
        a + b + Seq::<char>::empty() == a + b,
        Seq::<char>::empty() + a + b == a + b,
{
    assert(a + b + Seq::<char>::empty() =~= a + b);
    assert(Seq::<char>::empty() + a + b =~= a + b);
}

/// A program begins with its profile, and each instruction takes a line.
pub proof fn programs_are_written(p: ProgramModel, i: InstructionModel, ft: Spellings)
    ensures
        program_text(ProgramModel { instructions: Seq::empty(), ..p }, ft) == profile_text(p)
            + seq!['\n'],
        program_text(ProgramModel { instructions: p.instructions.push(i), ..p }, ft)
            == program_text(p, ft) + instruction_text(i, ft) + seq!['\n'],
        p.fourcc == seq![0x53u8, 0x48u8, 0x45u8, 0x58u8] ==> profile_text(p) == p.shader_type
            + seq!['_'] + dec_text(p.major_version as nat) + seq!['_'] + dec_text(
            p.minor_version as nat,
        ),
{
    let none = ProgramModel { instructions: Seq::empty(), ..p };
    assert(program_text(none, ft) =~= profile_text(p) + seq!['\n']);
    lemma_line_behind(p.instructions, i, ft, 0);
    let more = ProgramModel { instructions: p.instructions.push(i), ..p };
    assert(program_text(more, ft) =~= program_text(p, ft) + instruction_text(i, ft) + seq!['\n']);
    if p.fourcc == seq![0x53u8, 0x48u8, 0x45u8, 0x58u8] {
        assert(profile_text(p) =~= p.shader_type + seq!['_'] + dec_text(p.major_version as nat)
            + seq!['_'] + dec_text(p.minor_version as nat));
    }
}

proof fn lemma_line_behind(is: Seq<InstructionModel>, i: InstructionModel, ft: Spellings, k: int)
    requires
        0 <= k <= is.len(),
    ensures
        instructions_text(is.push(i), k, ft) == instructions_text(is, k, ft) + instruction_text(
            i,
            ft,
        ) + seq!['\n'],
    decreases is.len() - k,
{
    let u = is.push(i);
    if k < is.len() {
        lemma_line_behind(is, i, ft, k + 1);
    } else {
        assert(instructions_text(u, k + 1, ft) =~= Seq::empty());
    }
    assert(instructions_text(u, k, ft) =~= instructions_text(is, k, ft) + instruction_text(i, ft)
        + seq!['\n']);
}

// ---------------------------------------------------------------------------
// Declarations
// ---------------------------------------------------------------------------


/// Inputs say their interpolation in front of their register, and they and outputs
/// say their system value behind it.
pub proof fn ports_are_written(
    i: InstructionModel,
    interp: Seq<char>,
    sv: Seq<char>,
    ops: Seq<OperandModel>,
    ft: Spellings,
)
    ensures
        ({
            let r = spaced_operands_text(ops, 0, ft);
            let name = i.opcode.mnemonic();
            let input = |a: Option<Seq<char>>, b: Option<Seq<char>>|
                instruction_text(
                    InstructionModel {
                        kind: KindModel::DclInput {
                            interpolation: a,
                            system_value: b,
                            operands: ops,
                        },
                        ..i
                    },
                    ft,
                );
            let output = |b: Option<Seq<char>>|
                instruction_text(
                    InstructionModel {
                        kind: KindModel::DclOutput { system_value: b, operands: ops },
                        ..i
                    },
                    ft,
                );
            &&& input(None, None) == name + r
            &&& output(None) == name + r
            &&& input(Some(interp), None) == name + " interp("@ + interp + seq![')'] + r
            &&& input(None, Some(sv)) == name + r + " sv("@ + sv + seq![')']
            &&& output(Some(sv)) == name + r + " sv("@ + sv + seq![')']
            &&& input(Some(interp), Some(sv)) == name + " interp("@ + interp + seq![')'] + r
                + " sv("@ + sv + seq![')']
        }),
{
    let r = spaced_operands_text(ops, 0, ft);
    let name = i.opcode.mnemonic();
    let k = |a: Option<Seq<char>>, b: Option<Seq<char>>|
        InstructionModel {
            kind: KindModel::DclInput { interpolation: a, system_value: b, operands: ops },
            ..i
        };
    let o = |b: Option<Seq<char>>|
        InstructionModel {
            kind: KindModel::DclOutput { system_value: b, operands: ops },
            ..i
        };
    assert(instruction_text(k(None, None), ft) =~= name + r);
    assert(instruction_text(o(None), ft) =~= name + r);
    assert(instruction_text(k(Some(interp), None), ft) =~= name + " interp("@ + interp + seq![')']
        + r);
    assert(instruction_text(k(None, Some(sv)), ft) =~= name + r + " sv("@ + sv + seq![')']);
    assert(instruction_text(o(Some(sv)), ft) =~= name + r + " sv("@ + sv + seq![')']);
    assert(instruction_text(k(Some(interp), Some(sv)), ft) =~= name + " interp("@ + interp + seq![
        ')',
    ] + r + " sv("@ + sv + seq![')']);
}

/// Constant buffers and samplers say behind their register how they are used, and
/// buffers with a stride say it in front of their flags.
pub proof fn resources_are_written(i: InstructionModel, ft: Spellings)
    ensures
        ({
            let name = i.opcode.mnemonic();
            let t = instruction_text(i, ft);
            match i.kind {
                KindModel::DclConstantBuffer { access, operands } => t == name
                    + spaced_operands_text(operands, 0, ft) + " access("@ + access + seq![')'],
                KindModel::DclSampler { mode, operands } => t == name + spaced_operands_text(
                    operands,
                    0,
                    ft,
                ) + " mode("@ + mode + seq![')'],
                KindModel::DclUavRaw { flags, operands } => t == name + spaced_operands_text(
                    operands,
                    0,
                    ft,
                ) + " flags(0x"@ + hex_text(flags as nat) + seq![')'],
                KindModel::DclResourceRaw { operands } => t == name + spaced_operands_text(
                    operands,
                    0,
                    ft,
                ),
                KindModel::DclUavStructured { flags, stride, operands } => t == name
                    + spaced_operands_text(operands, 0, ft) + " stride("@ + dec_text(stride as nat)
                    + seq![')'] + " flags(0x"@ + hex_text(flags as nat) + seq![')'],
                KindModel::DclResourceStructured { stride, operands } => t == name
                    + spaced_operands_text(operands, 0, ft) + " stride("@ + dec_text(stride as nat)
                    + seq![')'],
                _ => true,
            }
        }),
{
    let name = i.opcode.mnemonic();
    reveal_strlit(" ");
    assert(" "@ =~= seq![' ']);
    let c = seq![')'];
    match i.kind {
        KindModel::DclConstantBuffer { access, operands } => {
            lemma_note(name, spaced_operands_text(operands, 0, ft), " access("@, access, c);
        },
        KindModel::DclSampler { mode, operands } => {
            lemma_note(name, spaced_operands_text(operands, 0, ft), " mode("@, mode, c);
        },
        KindModel::DclUavRaw { flags, operands } => {
            lemma_note(
                name,
                spaced_operands_text(operands, 0, ft),
                " flags(0x"@,
                hex_text(flags as nat),
                c,
            );
        },
        KindModel::DclUavStructured { flags, stride, operands } => {
            let r = spaced_operands_text(operands, 0, ft);
            let s = dec_text(stride as nat);
            lemma_note(name, r, " stride("@, s, c);
            lemma_note(name, r + (" stride("@ + s + c), " flags(0x"@, hex_text(flags as nat), c);
            assert(name + (r + (" stride("@ + s + c)) == name + r + " stride("@ + s + c);
        },
        KindModel::DclResourceStructured { stride, operands } => {
            lemma_note(
                name,
                spaced_operands_text(operands, 0, ft),
                " stride("@,
                dec_text(stride as nat),
                c,
            );
        },
        _ => {},
    }
}

/// Typed resources say their dimension and, in brackets, their four return types in
/// front of their register, and their samples or flags behind it.
pub proof fn typed_resources_are_written(i: InstructionModel, ft: Spellings)
    ensures
        ({
            let name = i.opcode.mnemonic();
            let t = instruction_text(i, ft);
            match i.kind {
                KindModel::DclResource { dimension, sample_count, return_type, operands } => t
                    == name + seq![' '] + dimension + " ("@ + return_types_text(
                    return_type[0],
                    return_type[1],
                    return_type[2],
                    return_type[3],
                ) + seq![')'] + spaced_operands_text(operands, 0, ft) + " samples("@ + dec_text(
                    sample_count as nat,
                ) + seq![')'],
                KindModel::DclUavTyped { dimension, flags, return_type, operands } => t == name
                    + seq![' '] + dimension + " ("@ + return_types_text(
                    return_type[0],
                    return_type[1],
                    return_type[2],
                    return_type[3],
                ) + seq![')'] + spaced_operands_text(operands, 0, ft) + " flags(0x"@ + hex_text(
                    flags as nat,
                ) + seq![')'],
                _ => true,
            }
        }),
{
    let name = i.opcode.mnemonic();
    reveal_strlit(" ");
    assert(" "@ =~= seq![' ']);
    match i.kind {
        KindModel::DclResource { dimension, sample_count, return_type, operands } => {
            let ts = return_types_text(
                return_type[0],
                return_type[1],
                return_type[2],
                return_type[3],
            );
            lemma_typed(
                name,
                dimension,
                ts,
                spaced_operands_text(operands, 0, ft),
                " samples("@,
                dec_text(sample_count as nat),
            );
        },
        KindModel::DclUavTyped { dimension, flags, return_type, operands } => {
            let ts = return_types_text(
                return_type[0],
                return_type[1],
                return_type[2],
                return_type[3],
            );
            lemma_typed(
                name,
                dimension,
                ts,
                spaced_operands_text(operands, 0, ft),
                " flags(0x"@,
                hex_text(flags as nat),
            );
        },
        _ => {},
    }
}

proof fn lemma_note(n: Seq<char>, r: Seq<char>, a: Seq<char>, b: Seq<char>, c: Seq<char>)
    ensures
        n + (r + (a + b + c)) == n + r + a + b + c,
{
    assert(n + (r + (a + b + c)) =~= n + r + a + b + c);
}

proof fn lemma_typed(
    n: Seq<char>,
    dim: Seq<char>,
    ts: Seq<char>,
    r: Seq<char>,
    a: Seq<char>,
    b: Seq<char>,
)
    ensures
        n + (" "@ + dim + " ("@ + ts + seq![')'] + r + (a + b + seq![')'])) == n + " "@ + dim
            + " ("@ + ts + seq![')'] + r + a + b + seq![')'],
{
    let x = a + b + seq![')'];
    let y = " "@ + dim + " ("@ + ts + seq![')'];
    assert(n + (y + r + x) =~= n + y + r + x);
    assert(n + y =~= n + " "@ + dim + " ("@ + ts + seq![')']);
    assert(n + y + r + x =~= n + y + r + a + b + seq![')']);
}

/// The registers of a declaration stand each behind a space.
pub proof fn declared_registers_are_spaced(op: OperandModel, ft: Spellings)
    ensures
        spaced_operands_text(seq![op], 0, ft) == seq![' '] + operand_text(
            op,
            ImmediateType::Uint,
            ft,
        ),
{
    reveal_strlit(" ");
    reveal_with_fuel(spaced_operands_text, 2);
    assert(" "@ =~= seq![' ']);
    assert(spaced_operands_text(seq![op], 0, ft) =~= seq![' '] + operand_text(
        op,
        ImmediateType::Uint,
        ft,
    ));
}

/// A number behind a space.
pub open spec fn counted(n: u32) -> Seq<char> {
    seq![' '] + dec_text(n as nat)
}

/// Declarations of sizes are numbers in their order.
pub proof fn sizes_are_written(i: InstructionModel, ft: Spellings)
    ensures
        ({
            let name = i.opcode.mnemonic();
            let t = instruction_text(i, ft);
            match i.kind {
                KindModel::DclTemps { count } => t == name + counted(count),
                KindModel::DclIndexableTemp { reg, size, components } => t == name + counted(reg)
                    + counted(size) + counted(components),
                KindModel::DclMaxOutputVertexCount { count } => t == name + counted(count),
                KindModel::DclGsInstanceCount { count } => t == name + counted(count),
                KindModel::DclOutputControlPointCount { count } => t == name + counted(count),
                KindModel::DclInputControlPointCount { count } => t == name + counted(count),
                KindModel::DclHsForkPhaseInstanceCount { count } => t == name + counted(count),
                KindModel::DclThreadGroup { x, y, z } => t == name + counted(x) + counted(y)
                    + counted(z),
                KindModel::DclFunctionBody { index } => t == name + counted(index),
                KindModel::DclIndexRange { operands, count } => t == name + spaced_operands_text(
                    operands,
                    0,
                    ft,
                ) + counted(count),
                KindModel::DclHsMaxTessFactor { value } => t == name + seq![
                    ' ',
                    '0',
                    'x',
                ] + hex_padded(value as nat, 8),
                KindModel::DclTessDomain { domain } => t == name + seq![' '] + domain,
                KindModel::DclTessPartitioning { partitioning } => t == name + seq![' ']
                    + partitioning,
                KindModel::DclTessOutputPrimitive { primitive } => t == name + seq![' ']
                    + primitive,
                KindModel::HsPhase => t == mnemonic_text(i.opcode) + modifiers_text(i.mods),
                _ => true,
            }
        }),
{
    reveal_strlit(" ");
    reveal_strlit("0x");
    assert(" "@ =~= seq![' ']);
    let name = i.opcode.mnemonic();
    let t = instruction_text(i, ft);
    match i.kind {
        KindModel::DclIndexableTemp { reg, size, components } => {
            assert(t =~= name + counted(reg) + counted(size) + counted(components));
        },
        KindModel::DclThreadGroup { x, y, z } => {
            assert(t =~= name + counted(x) + counted(y) + counted(z));
        },
        KindModel::DclIndexRange { operands, count } => {
            assert(t =~= name + spaced_operands_text(operands, 0, ft) + counted(count));
        },
        KindModel::DclHsMaxTessFactor { value } => {
            assert(t =~= name + seq![' ', '0', 'x'] + hex_padded(value as nat, 8));
        },
        KindModel::DclTessDomain { domain } => {
            assert(t =~= name + seq![' '] + domain);
        },
        KindModel::DclTessPartitioning { partitioning } => {
            assert(t =~= name + seq![' '] + partitioning);
        },
        KindModel::DclTessOutputPrimitive { primitive } => {
            assert(t =~= name + seq![' '] + primitive);
        },
        _ => {},
    }
}

/// A data block says its kind and holds its words, each in hexadecimal behind a space;
/// those of a constant buffer go by four.
pub proof fn data_blocks_are_written(raw: Seq<u32>, rows: Seq<[u32; 4]>, w: u32, row: [u32; 4])
    ensures
        custom_data_text(CustomDataType::Comment, rows, raw) == " comment {"@ + raw_text(raw, 0)
            + " }"@,
        custom_data_text(CustomDataType::DebugInfo, rows, raw) == " debuginfo {"@ + raw_text(raw, 0)
            + " }"@,
        custom_data_text(CustomDataType::Opaque, rows, raw) == " opaque {"@ + raw_text(raw, 0)
            + " }"@,
        custom_data_text(CustomDataType::ImmediateConstantBuffer, rows, raw) == " icb {"@
            + rows_text(rows, 0) + " }"@,
        raw_text(raw.push(w), 0) == raw_text(raw, 0) + seq![' '] + hex8_text(w),
        rows_text(seq![row], 0) == seq![' '] + hex8_text(row[0]) + seq![' '] + hex8_text(row[1])
            + seq![' '] + hex8_text(row[2]) + seq![' '] + hex8_text(row[3]),
{
    reveal_strlit(" ");
    reveal_strlit(" {");
    reveal_strlit("icb");
    reveal_strlit("comment");
    reveal_strlit("debuginfo");
    reveal_strlit("opaque");
    reveal_strlit(" icb {");
    reveal_strlit(" comment {");
    reveal_strlit(" debuginfo {");
    reveal_strlit(" opaque {");
    assert(" "@ =~= seq![' ']);
    assert(" icb {"@ =~= " "@ + "icb"@ + " {"@);
    assert(" comment {"@ =~= " "@ + "comment"@ + " {"@);
    assert(" debuginfo {"@ =~= " "@ + "debuginfo"@ + " {"@);
    assert(" opaque {"@ =~= " "@ + "opaque"@ + " {"@);
    lemma_raw_behind(raw, w, 0);
    reveal_with_fuel(rows_text, 2);
    assert(rows_text(seq![row], 0) =~= seq![' '] + hex8_text(row[0]) + seq![' '] + hex8_text(row[1])
        + seq![' '] + hex8_text(row[2]) + seq![' '] + hex8_text(row[3]));
}

proof fn lemma_raw_behind(raw: Seq<u32>, w: u32, k: int)
    requires
        0 <= k <= raw.len(),
    ensures
        raw_text(raw.push(w), k) == raw_text(raw, k) + seq![' '] + hex8_text(w),
    decreases raw.len() - k,
{
    reveal_strlit(" ");
    assert(" "@ =~= seq![' ']);
    let u = raw.push(w);
    if k < raw.len() {
        lemma_raw_behind(raw, w, k + 1);
    } else {
        assert(raw_text(u, k + 1) =~= Seq::empty());
    }
    assert(raw_text(u, k) =~= raw_text(raw, k) + seq![' '] + hex8_text(w));
}

} // verus!
