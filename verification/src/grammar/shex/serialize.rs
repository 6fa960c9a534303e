//! Writing a shader program as text.

use vstd::prelude::*;

use crate::floats::FloatTable;
use crate::grammar::shex::text::{
    components_implied, components_text, core_text, custom_data_text, data_tag_text,
    declaration_text, flags_text, gs_primitive_text, hex8_text, imm_text, imms_text, index_text,
    indices_text, instruction_text, instructions_text, interp_text, is_inline_immediate, mask_text,
    mnemonic_text, mod_nz, mod_off, mod_pm, mod_res, mod_ri, mod_rt, mod_sat, mod_sf,
    modifiers_text, offsets_text, operand_list_text, operand_text, profile_text, program_text,
    raw_text, register_text, resource_dim_text, resource_rt_text, return_type_text,
    return_types_text, row_text, rows_text, shex_code, signed_value, spaced_dec,
    spaced_operands_text, stride_text, sv_text, typed_text, uav_flags_text, word_list_text,
};
use crate::grammar::tables::{axis_letter, dimensions_table, name_of};
use crate::numerals::{dec_text, hex_text, push_dec, push_hex, push_hex_padded, push_int};
use crate::shex::ir::{
    index_models, instruction_models, lemma_operand_model, opcode_imm_type, operand_models,
    ComponentSelect, CustomDataType, FlagNames, GsPrimitive, ImmediateType, Instruction,
    InstructionKind, Opcode, Operand, OperandIndex, Operands, Program, RegisterType, ReturnType,
    SmallU32Vec,
};
use crate::shex::lists::flag_items;
use crate::text::{
    lemma_append3, lemma_append4, lemma_cat3, lemma_cat4, lemma_cat6, push_chars, push_text,
};
use crate::utf8::text_of_bytes;

verus! {

/// Write a program as text, its floating-point immediates as `floats` spells
/// them.
pub fn serialize(program: &Program, floats: &FloatTable) -> (r: String)
    ensures
        r@ == program_text(program.model(), floats@),
{
    let mut s = String::new();
    write_program(&mut s, program, floats);
    assert(s@ =~= program_text(program.model(), floats@));
    s
}

fn write_program(w: &mut String, p: &Program, ft: &FloatTable)
    ensures
        final(w)@ == old(w)@ + program_text(p.model(), ft@),
{
    push_text(w, p.shader_type);
    w.push('_');
    push_dec(w, p.major_version as u64);
    w.push('_');
    push_dec(w, p.minor_version as u64);
    let f = p.fourcc;
    let default = f[0] == 0x53 && f[1] == 0x48 && f[2] == 0x45 && f[3] == 0x58;
    proof {
        if default {
            assert(f@ =~= shex_code());
        }
    }
    if !default {
        push_text(w, " ");
        match text_of_bytes(f.as_slice()) {
            Some(t) => {
                push_text(w, t.as_str());
            },
            None => {
                push_text(w, "SHEX");
            },
        }
    }
    assert(w@ =~= old(w)@ + profile_text(p.model()));
    w.push('\n');
    let ghost is = p.model().instructions;
    let ghost start = w@;
    let mut i: usize = 0;
    assert(w@ + instructions_text(is, 0, ft@) =~= start + instructions_text(is, 0, ft@));
    while i < p.instructions.len()
        invariant
            is == instruction_models(p.instructions@),
            i <= p.instructions.len(),
            w@ + instructions_text(is, i as int, ft@) == start + instructions_text(is, 0, ft@),
        decreases p.instructions.len() - i,
    {
        let ghost before = w@;
        write_instruction(w, &p.instructions[i], ft);
        w.push('\n');
        proof {
            let line = instruction_text(is[i as int], ft@);
            assert(w@ =~= before + line.push('\n'));
            lemma_cat3(before, line.push('\n'), instructions_text(is, i as int + 1, ft@));
        }
        i += 1;
    }
    assert(w@ =~= start + instructions_text(is, 0, ft@));
    assert(w@ =~= old(w)@ + program_text(p.model(), ft@));
}

/// Write one instruction, without a line break.
pub fn write_instruction(w: &mut String, instr: &Instruction, ft: &FloatTable)
    ensures
        final(w)@ == old(w)@ + instruction_text(instr.model(), ft@),
{
    match &instr.kind {
        InstructionKind::Generic { operands } => {
            write_mnemonic(w, instr.opcode);
            write_modifiers(w, instr);
            write_operand_list(w, operands, opcode_imm_type(instr.opcode), ft);
            assert(w@ =~= old(w)@ + instruction_text(instr.model(), ft@));
        },
        InstructionKind::HsPhase => {
            write_mnemonic(w, instr.opcode);
            write_modifiers(w, instr);
            assert(w@ =~= old(w)@ + instruction_text(instr.model(), ft@));
        },
        InstructionKind::CustomData { subtype, values, raw, raw_dword_count: _ } => {
            push_text(w, instr.opcode.name());
            write_custom_data(w, *subtype, values, raw);
            assert(w@ =~= old(w)@ + instruction_text(instr.model(), ft@));
        },
        _ => {
            push_text(w, instr.opcode.name());
            write_declaration(w, &instr.kind, ft);
            assert(w@ =~= old(w)@ + instruction_text(instr.model(), ft@));
        },
    }
}

/// Write an opcode's mnemonic, or `op` and its number where it has none.
fn write_mnemonic(w: &mut String, opcode: Opcode)
    ensures
        final(w)@ == old(w)@ + mnemonic_text(opcode),
{
    match opcode {
        Opcode::Unknown(v) => {
            push_text(w, "op");
            push_dec(w, v as u64);
            assert(w@ =~= old(w)@ + mnemonic_text(opcode));
        },
        _ => {
            push_text(w, opcode.name());
        },
    }
}

/// Write the modifiers that are set.
fn write_modifiers(w: &mut String, instr: &Instruction)
    ensures
        final(w)@ == old(w)@ + modifiers_text(instr.modifiers()),
{
    let ghost m = instr.modifiers();
    write_plain_modifiers(w, instr);
    write_word_modifiers(w, instr);
    proof {
        let tail = mod_pm(m) + (mod_sf(m) + (mod_off(m) + (mod_res(m) + mod_rt(m))));
        lemma_cat3(old(w)@, mod_ri(m) + (mod_sat(m) + mod_nz(m)), tail);
        lemma_cat3(mod_ri(m), mod_sat(m) + mod_nz(m), tail);
        lemma_cat3(mod_sat(m), mod_nz(m), tail);
    }
}

fn write_plain_modifiers(w: &mut String, instr: &Instruction)
    ensures
        final(w)@ == old(w)@ + (mod_ri(instr.modifiers()) + (mod_sat(instr.modifiers()) + mod_nz(
            instr.modifiers(),
        ))),
{
    let ghost m = instr.modifiers();
    if let Some(n) = instr.resinfo_return_type {
        push_text(w, "_ri");
        push_dec(w, n as u64);
    }
    assert(w@ =~= old(w)@ + mod_ri(m));
    let ghost w1 = w@;
    if instr.saturate {
        push_text(w, "_sat");
    }
    assert(w@ =~= w1 + mod_sat(m));
    let ghost w2 = w@;
    if instr.test_nonzero {
        push_text(w, "_nz");
    }
    assert(w@ =~= w2 + mod_nz(m));
    assert(w@ =~= old(w)@ + (mod_ri(m) + (mod_sat(m) + mod_nz(m))));
}

fn write_word_modifiers(w: &mut String, instr: &Instruction)
    ensures
        final(w)@ == old(w)@ + (mod_pm(instr.modifiers()) + (mod_sf(instr.modifiers()) + (mod_off(
            instr.modifiers(),
        ) + (mod_res(instr.modifiers()) + mod_rt(instr.modifiers()))))),
{
    let ghost m = instr.modifiers();
    write_hex_modifier(w, "_pm", instr.precise_mask);
    write_hex_modifier(w, "_sf", instr.sync_flags);
    write_offset_modifier(w, instr);
    write_dim_modifier(w, instr);
    write_rt_modifier(w, instr);
    proof {
        lemma_cat6(old(w)@, mod_pm(m), mod_sf(m), mod_off(m), mod_res(m), mod_rt(m));
    }
}

fn write_hex_modifier(w: &mut String, tag: &str, v: u8)
    ensures
        final(w)@ == old(w)@ + (if v != 0 {
            tag@ + hex_text(v as nat)
        } else {
            Seq::empty()
        }),
{
    if v != 0 {
        push_text(w, tag);
        push_hex(w, v as u64);
        assert(w@ =~= old(w)@ + (tag@ + hex_text(v as nat)));
    } else {
        assert(w@ =~= old(w)@ + Seq::<char>::empty());
    }
}

fn write_offset_modifier(w: &mut String, instr: &Instruction)
    ensures
        final(w)@ == old(w)@ + mod_off(instr.modifiers()),
{
    match instr.tex_offsets {
        Some(o) => write_offsets(w, o),
        None => {
            assert(w@ =~= old(w)@ + Seq::<char>::empty());
        },
    }
}

fn write_dim_modifier(w: &mut String, instr: &Instruction)
    ensures
        final(w)@ == old(w)@ + mod_res(instr.modifiers()),
{
    match instr.resource_dim {
        Some(r) => write_resource_dim(w, r),
        None => {
            assert(w@ =~= old(w)@ + Seq::<char>::empty());
        },
    }
}

fn write_rt_modifier(w: &mut String, instr: &Instruction)
    ensures
        final(w)@ == old(w)@ + mod_rt(instr.modifiers()),
{
    match instr.resource_return_type {
        Some(r) => write_resource_rt(w, r),
        None => {
            assert(w@ =~= old(w)@ + Seq::<char>::empty());
        },
    }
}

fn write_offsets(w: &mut String, o: [i8; 3])
    ensures
        final(w)@ == old(w)@ + offsets_text(o),
{
    push_text(w, "_off(");
    push_int(w, o[0] as i64);
    w.push(',');
    push_int(w, o[1] as i64);
    w.push(',');
    push_int(w, o[2] as i64);
    w.push(')');
    assert(w@ =~= old(w)@ + offsets_text(o));
}

/// Write a resource-dimension word by name, or in hexadecimal where the name
/// and the stride are not all there is to it.
fn write_resource_dim(w: &mut String, rd: u32)
    ensures
        final(w)@ == old(w)@ + resource_dim_text(rd),
{
    let dim: u32 = (rd >> 6) & 0x1F;
    let stride: u32 = (rd >> 11) & 0xF_FFFF;
    let recon: u32 = 2 | (dim << 6) | (stride << 11);
    let t = dimensions_table();
    let name = name_of(&t, dim);
    if rd & 0x3F == 2 && recon == rd {
        if let Some(n) = name {
            push_text(w, "_res(");
            push_text(w, n);
            if stride != 0 {
                push_text(w, ",stride=");
                push_dec(w, stride as u64);
            }
            w.push(')');
            assert(w@ =~= old(w)@ + resource_dim_text(rd));
            return ;
        }
    }
    push_text(w, "_rd");
    push_hex_padded(w, rd as u64, 8);
    assert(w@ =~= old(w)@ + resource_dim_text(rd));
}

/// Write a return-type word by names, or in hexadecimal where the names are not
/// all there is to it.
fn write_resource_rt(w: &mut String, rr: u32)
    ensures
        final(w)@ == old(w)@ + resource_rt_text(rr),
{
    let a: u32 = (rr >> 6) & 0xF;
    let b: u32 = (rr >> 10) & 0xF;
    let c: u32 = (rr >> 14) & 0xF;
    let d: u32 = (rr >> 18) & 0xF;
    let recon: u32 = 3 | (a << 6) | (b << 10) | (c << 14) | (d << 18);
    if rr & 0x3F == 3 && recon == rr {
        push_text(w, "_rt(");
        write_return_types(
            w,
            ReturnType::from_u32(a),
            ReturnType::from_u32(b),
            ReturnType::from_u32(c),
            ReturnType::from_u32(d),
        );
        w.push(')');
        assert(w@ =~= old(w)@ + resource_rt_text(rr));
        return ;
    }
    push_text(w, "_rr");
    push_hex_padded(w, rr as u64, 8);
    assert(w@ =~= old(w)@ + resource_rt_text(rr));
}

fn write_return_type(w: &mut String, t: ReturnType)
    ensures
        final(w)@ == old(w)@ + return_type_text(t),
{
    match t {
        ReturnType::Unknown(v) => {
            push_text(w, "unknown");
            push_dec(w, v as u64);
            assert(w@ =~= old(w)@ + return_type_text(t));
        },
        _ => {
            push_text(w, t.name());
        },
    }
}

fn write_return_types(w: &mut String, a: ReturnType, b: ReturnType, c: ReturnType, d: ReturnType)
    ensures
        final(w)@ == old(w)@ + return_types_text(a, b, c, d),
{
    write_return_type(w, a);
    w.push(',');
    write_return_type(w, b);
    w.push(',');
    write_return_type(w, c);
    w.push(',');
    write_return_type(w, d);
    assert(w@ =~= old(w)@ + return_types_text(a, b, c, d));
}

// ---------------------------------------------------------------------------
// Operands
// ---------------------------------------------------------------------------

/// The text of one operand, its immediates in hexadecimal.
pub fn operand_string(op: &Operand) -> (r: String)
    ensures
        r@ == operand_text(op.model(), ImmediateType::Uint, Seq::empty()),
{
    let mut s = String::new();
    let ft = FloatTable::new();
    write_operand(&mut s, op, ImmediateType::Uint, &ft);
    assert(s@ =~= operand_text(op.model(), ImmediateType::Uint, Seq::empty()));
    s
}

/// Write one operand.
pub fn write_operand(w: &mut String, op: &Operand, ty: ImmediateType, ft: &FloatTable)
    ensures
        final(w)@ == old(w)@ + operand_text(op.model(), ty, ft@),
    decreases op, 1int,
{
    let ghost m = op.model();
    if op.negate {
        w.push('-');
    }
    if op.abs {
        w.push('|');
    }
    write_core(w, op, ty, ft);
    let inline = op.indices.len() == 0 && (op.reg_type == RegisterType::Immediate32 || op.reg_type
        == RegisterType::Immediate64);
    let n: usize = op.immediate_values.as_slice().len();
    let implied = inline && n > 0 && match op.components {
        ComponentSelect::OneComponent => n == 1,
        ComponentSelect::Mask(k) => n != 1 && k == 0,
        _ => false,
    };
    proof {
        assert(inline == is_inline_immediate(m));
        assert(implied == components_implied(m));
    }
    if !implied {
        write_components(w, op.components);
    }
    if op.abs {
        w.push('|');
    }
    assert(w@ =~= old(w)@ + operand_text(m, ty, ft@));
}

fn write_core(w: &mut String, op: &Operand, ty: ImmediateType, ft: &FloatTable)
    ensures
        final(w)@ == old(w)@ + core_text(op.model(), ty, ft@),
    decreases op, 0int,
{
    let ghost m = op.model();
    if op.indices.len() == 0 && op.reg_type == RegisterType::Immediate32 {
        push_text(w, "l(");
        write_immediates(w, op.immediate_values.as_slice(), ty, ft);
        w.push(')');
        assert(w@ =~= old(w)@ + core_text(m, ty, ft@));
    } else if op.indices.len() == 0 && op.reg_type == RegisterType::Immediate64 {
        push_text(w, "d(");
        write_immediates(w, op.immediate_values.as_slice(), ImmediateType::Uint, ft);
        w.push(')');
        assert(w@ =~= old(w)@ + core_text(m, ty, ft@));
    } else {
        match op.reg_type {
            RegisterType::Unknown(v) => {
                push_text(w, "?reg(");
                push_dec(w, v as u64);
                w.push(')');
            },
            _ => {
                push_text(w, op.reg_type.prefix());
            },
        }
        assert(w@ =~= old(w)@ + register_text(op.reg_type));
        write_indices(w, &op.indices, ft);
        proof {
            lemma_operand_model(*op);
        }
        assert(w@ =~= old(w)@ + core_text(m, ty, ft@));
    }
}

fn write_immediates(w: &mut String, values: &[u32], ty: ImmediateType, ft: &FloatTable)
    ensures
        final(w)@ == old(w)@ + imms_text(values@, 0, ty, ft@),
{
    let mut i: usize = 0;
    while i < values.len()
        invariant
            i <= values.len(),
            w@ + imms_text(values@, i as int, ty, ft@) == old(w)@ + imms_text(values@, 0, ty, ft@),
        decreases values.len() - i,
    {
        let ghost before = w@;
        if i > 0 {
            push_text(w, ", ");
        }
        write_immediate_value(w, values[i], ty, ft);
        assert(before + imms_text(values@, i as int, ty, ft@) =~= w@ + imms_text(
            values@,
            i as int + 1,
            ty,
            ft@,
        ));
        i += 1;
    }
    assert(w@ =~= old(w)@ + imms_text(values@, 0, ty, ft@));
}

fn write_hex8(w: &mut String, v: u32)
    ensures
        final(w)@ == old(w)@ + hex8_text(v),
{
    push_text(w, "0x");
    push_hex_padded(w, v as u64, 8);
    assert(w@ =~= old(w)@ + hex8_text(v));
}

/// Write one immediate value, in hexadecimal where no decimal text reads back as
/// the same bits.
fn write_immediate_value(w: &mut String, v: u32, ty: ImmediateType, ft: &FloatTable)
    ensures
        final(w)@ == old(w)@ + imm_text(v, ty, ft@),
{
    match ty {
        ImmediateType::Float => {
            match ft.spelling(v) {
                Some(s) => {
                    push_chars(w, s.as_slice());
                },
                None => {
                    write_hex8(w, v);
                },
            }
        },
        ImmediateType::Int => {
            let i: i64 = if v < 0x8000_0000 { v as i64 } else { v as i64 - 0x1_0000_0000 };
            assert(i == signed_value(v));
            push_int(w, i);
        },
        ImmediateType::Uint => {
            write_hex8(w, v);
        },
    }
}

fn write_indices(w: &mut String, indices: &Vec<OperandIndex>, ft: &FloatTable)
    ensures
        final(w)@ == old(w)@ + indices_text(index_models(indices@), 0, ft@),
    decreases indices, 0int,
{
    let ghost ix = index_models(indices@);
    let mut i: usize = 0;
    while i < indices.len()
        invariant
            ix == index_models(indices@),
            i <= indices.len(),
            w@ + indices_text(ix, i as int, ft@) == old(w)@ + indices_text(ix, 0, ft@),
        decreases indices.len() - i,
    {
        let ghost before = w@;
        let bare = i == 0 && match &indices[i] {
            OperandIndex::Imm32(_) => true,
            OperandIndex::Imm64(_) => true,
            _ => false,
        };
        assert(ix[i as int] == indices@[i as int].model());
        assert(decreases_to!(indices => indices@[i as int]));
        if bare {
            write_index(w, &indices[i], ft);
        } else {
            w.push('[');
            write_index(w, &indices[i], ft);
            w.push(']');
        }
        assert(before + indices_text(ix, i as int, ft@) =~= w@ + indices_text(
            ix,
            i as int + 1,
            ft@,
        ));
        i += 1;
    }
    assert(w@ =~= old(w)@ + indices_text(ix, 0, ft@));
}

fn write_index(w: &mut String, idx: &OperandIndex, ft: &FloatTable)
    ensures
        final(w)@ == old(w)@ + index_text(idx.model(), ft@),
    decreases idx, 0int,
{
    match idx {
        OperandIndex::Imm32(v) => {
            push_dec(w, *v as u64);
        },
        OperandIndex::Imm64(v) => {
            push_dec(w, *v);
            w.push('L');
            assert(w@ =~= old(w)@ + index_text(idx.model(), ft@));
        },
        OperandIndex::Relative(sub) => {
            write_operand(w, sub, ImmediateType::Uint, ft);
        },
        OperandIndex::RelativePlusImm(imm, sub) => {
            write_operand(w, sub, ImmediateType::Uint, ft);
            push_text(w, " + ");
            push_dec(w, *imm as u64);
            assert(w@ =~= old(w)@ + index_text(idx.model(), ft@));
        },
    }
}

fn write_components(w: &mut String, comp: ComponentSelect)
    ensures
        final(w)@ == old(w)@ + components_text(comp),
{
    match comp {
        ComponentSelect::ZeroComponent => {
            assert(w@ =~= old(w)@ + components_text(comp));
        },
        ComponentSelect::OneComponent => {
            push_text(w, ".1");
        },
        ComponentSelect::Scalar(c) => {
            w.push('.');
            w.push(axis_letter(c));
            assert(w@ =~= old(w)@ + components_text(comp));
        },
        ComponentSelect::Swizzle(s) => {
            w.push('.');
            w.push(axis_letter(s[0]));
            w.push(axis_letter(s[1]));
            w.push(axis_letter(s[2]));
            w.push(axis_letter(s[3]));
            assert(w@ =~= old(w)@ + components_text(comp));
        },
        ComponentSelect::Mask(m) => {
            w.push(':');
            proof {
                reveal_with_fuel(mask_text, 6);
            }
            if m & 1 != 0 {
                w.push('x');
            }
            if m & 2 != 0 {
                w.push('y');
            }
            if m & 4 != 0 {
                w.push('z');
            }
            if m & 8 != 0 {
                w.push('w');
            }
            assert(w@ =~= old(w)@ + components_text(comp));
        },
    }
}

// ---------------------------------------------------------------------------
// Operand lists
// ---------------------------------------------------------------------------

fn write_operand_list(w: &mut String, operands: &Operands, ty: ImmediateType, ft: &FloatTable)
    ensures
        final(w)@ == old(w)@ + operand_list_text(operand_models(operands@), 0, ty, ft@),
{
    let ops = operands.as_slice();
    let ghost ms = operand_models(operands@);
    let mut i: usize = 0;
    while i < ops.len()
        invariant
            ops@ == operands@,
            ms == operand_models(operands@),
            i <= ops.len(),
            w@ + operand_list_text(ms, i as int, ty, ft@) == old(w)@ + operand_list_text(
                ms,
                0,
                ty,
                ft@,
            ),
        decreases ops.len() - i,
    {
        let ghost before = w@;
        if i == 0 {
            push_text(w, " ");
        } else {
            push_text(w, ", ");
        }
        write_operand(w, &ops[i], ty, ft);
        proof {
            let sep = if i == 0 {
                " "@
            } else {
                ", "@
            };
            let text = operand_text(ms[i as int], ty, ft@);
            lemma_cat3(before, sep, text);
            lemma_cat3(before, sep + text, operand_list_text(ms, i as int + 1, ty, ft@));
        }
        i += 1;
    }
    assert(w@ =~= old(w)@ + operand_list_text(ms, 0, ty, ft@));
}

/// Write the operands of a declaration, each behind a space.
fn write_op0(w: &mut String, operands: &Operands, ft: &FloatTable)
    ensures
        final(w)@ == old(w)@ + spaced_operands_text(operand_models(operands@), 0, ft@),
{
    let ops = operands.as_slice();
    let ghost ms = operand_models(operands@);
    let mut i: usize = 0;
    while i < ops.len()
        invariant
            ops@ == operands@,
            ms == operand_models(operands@),
            i <= ops.len(),
            w@ + spaced_operands_text(ms, i as int, ft@) == old(w)@ + spaced_operands_text(
                ms,
                0,
                ft@,
            ),
        decreases ops.len() - i,
    {
        let ghost before = w@;
        push_text(w, " ");
        write_operand(w, &ops[i], ImmediateType::Uint, ft);
        proof {
            let text = operand_text(ms[i as int], ImmediateType::Uint, ft@);
            lemma_cat3(before, " "@, text);
            lemma_cat3(before, " "@ + text, spaced_operands_text(ms, i as int + 1, ft@));
        }
        i += 1;
    }
    assert(w@ =~= old(w)@ + spaced_operands_text(ms, 0, ft@));
}

fn write_flags(w: &mut String, flags: &FlagNames)
    ensures
        final(w)@ == old(w)@ + flags_text(flags@, 0),
{
    let names = flags.as_slice();
    let mut i: usize = 0;
    while i < names.len()
        invariant
            names@ == flag_items(*flags),
            i <= names.len(),
            w@ + flags_text(flags@, i as int) == old(w)@ + flags_text(flags@, 0),
        decreases names.len() - i,
    {
        let ghost before = w@;
        if i == 0 {
            push_text(w, " ");
        } else {
            push_text(w, "|");
        }
        push_text(w, names[i]);
        assert(before + flags_text(flags@, i as int) =~= w@ + flags_text(flags@, i as int + 1));
        i += 1;
    }
    assert(w@ =~= old(w)@ + flags_text(flags@, 0));
}

fn write_u32_list(w: &mut String, list: &SmallU32Vec)
    ensures
        final(w)@ == old(w)@ + " {"@ + word_list_text(list@, 0) + seq!['}'],
{
    push_text(w, " {");
    let ghost start = w@;
    let ws = list.as_slice();
    let mut i: usize = 0;
    while i < ws.len()
        invariant
            ws@ == list@,
            i <= ws.len(),
            w@ + word_list_text(ws@, i as int) == start + word_list_text(ws@, 0),
        decreases ws.len() - i,
    {
        let ghost before = w@;
        if i > 0 {
            push_text(w, ", ");
        }
        push_dec(w, ws[i] as u64);
        assert(before + word_list_text(ws@, i as int) =~= w@ + word_list_text(ws@, i as int + 1));
        i += 1;
    }
    assert(w@ =~= start + word_list_text(ws@, 0));
    w.push('}');
    assert(w@ =~= old(w)@ + " {"@ + word_list_text(list@, 0) + seq!['}']);
}

fn write_spaced_dec(w: &mut String, n: u32)
    ensures
        final(w)@ == old(w)@ + spaced_dec(n),
{
    push_text(w, " ");
    push_dec(w, n as u64);
    assert(w@ =~= old(w)@ + spaced_dec(n));
}

fn write_typed(w: &mut String, dimension: &'static str, rt: [ReturnType; 4])
    ensures
        final(w)@ == old(w)@ + typed_text(dimension@, rt),
{
    push_text(w, " ");
    push_text(w, dimension);
    push_text(w, " (");
    write_return_types(w, rt[0], rt[1], rt[2], rt[3]);
    w.push(')');
    assert(w@ =~= old(w)@ + typed_text(dimension@, rt));
}

fn write_uav_flags(w: &mut String, flags: u32)
    ensures
        final(w)@ == old(w)@ + uav_flags_text(flags),
{
    push_text(w, " flags(0x");
    push_hex(w, flags as u64);
    w.push(')');
    assert(w@ =~= old(w)@ + uav_flags_text(flags));
}

/// Write ` tag(number)`, where `tag` brings its space and bracket.
fn write_dec_tag(w: &mut String, tag: &str, n: u32)
    ensures
        final(w)@ == old(w)@ + (tag@ + dec_text(n as nat) + seq![')']),
{
    push_text(w, tag);
    push_dec(w, n as u64);
    w.push(')');
    assert(w@ =~= old(w)@ + (tag@ + dec_text(n as nat) + seq![')']));
}

/// Write ` tag(name)`, where `tag` brings its space and bracket.
fn write_name_tag(w: &mut String, tag: &str, name: &str)
    ensures
        final(w)@ == old(w)@ + (tag@ + name@ + seq![')']),
{
    push_text(w, tag);
    push_text(w, name);
    w.push(')');
    assert(w@ =~= old(w)@ + (tag@ + name@ + seq![')']));
}

fn write_sv(w: &mut String, sv: Option<&'static str>)
    ensures
        final(w)@ == old(w)@ + sv_text(crate::shex::ir::opt_text(sv)),
{
    match sv {
        Some(n) => {
            write_name_tag(w, " sv(", n);
        },
        None => {
            assert(w@ =~= old(w)@ + sv_text(None));
        },
    }
}

/// Write what a declaration holds behind its mnemonic.
fn write_declaration(w: &mut String, kind: &InstructionKind, ft: &FloatTable)
    ensures
        final(w)@ == old(w)@ + declaration_text(kind.model(), ft@),
{
    match kind {
        InstructionKind::DclGlobalFlags { flags } => {
            write_flags(w, flags);
        },
        InstructionKind::DclInput { interpolation, system_value, operands } => {
            let ghost a = interp_text(crate::shex::ir::opt_text(*interpolation));
            match interpolation {
                Some(n) => {
                    write_name_tag(w, " interp(", n);
                },
                None => {
                    assert(w@ =~= old(w)@ + a);
                },
            }
            write_op0(w, operands, ft);
            write_sv(w, *system_value);
            proof {
                lemma_append3(
                    old(w)@,
                    a,
                    spaced_operands_text(operand_models(operands@), 0, ft@),
                    sv_text(crate::shex::ir::opt_text(*system_value)),
                );
            }
        },
        InstructionKind::DclOutput { system_value, operands } => {
            write_op0(w, operands, ft);
            write_sv(w, *system_value);
            proof {
                lemma_cat3(
                    old(w)@,
                    spaced_operands_text(operand_models(operands@), 0, ft@),
                    sv_text(crate::shex::ir::opt_text(*system_value)),
                );
            }
        },
        InstructionKind::DclResource { dimension, sample_count, return_type, operands } => {
            write_typed(w, dimension, *return_type);
            write_op0(w, operands, ft);
            write_dec_tag(w, " samples(", *sample_count);
            proof {
                lemma_append3(
                    old(w)@,
                    typed_text(dimension@, *return_type),
                    spaced_operands_text(operand_models(operands@), 0, ft@),
                    " samples("@ + dec_text(*sample_count as nat) + seq![')'],
                );
            }
        },
        InstructionKind::DclSampler { mode, operands } => {
            write_op0(w, operands, ft);
            write_name_tag(w, " mode(", mode);
            proof {
                lemma_cat3(
                    old(w)@,
                    spaced_operands_text(operand_models(operands@), 0, ft@),
                    " mode("@ + mode@ + seq![')'],
                );
            }
        },
        InstructionKind::DclConstantBuffer { access, operands } => {
            write_op0(w, operands, ft);
            write_name_tag(w, " access(", access);
            proof {
                lemma_cat3(
                    old(w)@,
                    spaced_operands_text(operand_models(operands@), 0, ft@),
                    " access("@ + access@ + seq![')'],
                );
            }
        },
        InstructionKind::DclTemps { count } => {
            write_spaced_dec(w, *count);
        },
        InstructionKind::DclIndexableTemp { reg, size, components } => {
            write_spaced_dec(w, *reg);
            write_spaced_dec(w, *size);
            write_spaced_dec(w, *components);
            proof {
                lemma_cat4(old(w)@, spaced_dec(*reg), spaced_dec(*size), spaced_dec(*components));
            }
        },
        InstructionKind::DclGsInputPrimitive { primitive } => {
            push_text(w, " ");
            let ghost w1 = w@;
            match primitive {
                GsPrimitive::ControlPointPatch(n) => {
                    write_dec_tag(w, "patchlist(", *n as u32);
                },
                _ => {
                    push_text(w, primitive.name());
                },
            }
            proof {
                lemma_cat3(old(w)@, " "@, gs_primitive_text(*primitive));
            }
        },
        InstructionKind::DclGsOutputTopology { topology } => {
            push_text(w, " ");
            push_text(w, topology.name());
            proof {
                lemma_cat3(old(w)@, " "@, topology.name_text());
            }
        },
        InstructionKind::DclMaxOutputVertexCount { count } => {
            write_spaced_dec(w, *count);
        },
        InstructionKind::DclGsInstanceCount { count } => {
            write_spaced_dec(w, *count);
        },
        InstructionKind::DclOutputControlPointCount { count } => {
            write_spaced_dec(w, *count);
        },
        InstructionKind::DclInputControlPointCount { count } => {
            write_spaced_dec(w, *count);
        },
        InstructionKind::DclHsForkPhaseInstanceCount { count } => {
            write_spaced_dec(w, *count);
        },
        InstructionKind::DclTessDomain { domain } => {
            push_text(w, " ");
            push_text(w, domain);
            proof {
                lemma_cat3(old(w)@, " "@, domain@);
            }
        },
        InstructionKind::DclTessPartitioning { partitioning } => {
            push_text(w, " ");
            push_text(w, partitioning);
            proof {
                lemma_cat3(old(w)@, " "@, partitioning@);
            }
        },
        InstructionKind::DclTessOutputPrimitive { primitive } => {
            push_text(w, " ");
            push_text(w, primitive);
            proof {
                lemma_cat3(old(w)@, " "@, primitive@);
            }
        },
        InstructionKind::DclHsMaxTessFactor { value } => {
            push_text(w, " ");
            write_hex8(w, *value);
            proof {
                lemma_cat3(old(w)@, " "@, hex8_text(*value));
            }
        },
        InstructionKind::DclThreadGroup { x, y, z } => {
            write_spaced_dec(w, *x);
            write_spaced_dec(w, *y);
            write_spaced_dec(w, *z);
            proof {
                lemma_cat4(old(w)@, spaced_dec(*x), spaced_dec(*y), spaced_dec(*z));
            }
        },
        InstructionKind::DclUavTyped { dimension, flags, return_type, operands } => {
            write_typed(w, dimension, *return_type);
            write_op0(w, operands, ft);
            write_uav_flags(w, *flags);
            proof {
                lemma_append3(
                    old(w)@,
                    typed_text(dimension@, *return_type),
                    spaced_operands_text(operand_models(operands@), 0, ft@),
                    uav_flags_text(*flags),
                );
            }
        },
        InstructionKind::DclUavRaw { flags, operands } => {
            write_op0(w, operands, ft);
            write_uav_flags(w, *flags);
            proof {
                lemma_cat3(
                    old(w)@,
                    spaced_operands_text(operand_models(operands@), 0, ft@),
                    uav_flags_text(*flags),
                );
            }
        },
        InstructionKind::DclUavStructured { flags, stride, operands } => {
            write_op0(w, operands, ft);
            write_dec_tag(w, " stride(", *stride);
            write_uav_flags(w, *flags);
            proof {
                lemma_append3(
                    old(w)@,
                    spaced_operands_text(operand_models(operands@), 0, ft@),
                    stride_text(*stride),
                    uav_flags_text(*flags),
                );
            }
        },
        InstructionKind::DclResourceRaw { operands } => {
            write_op0(w, operands, ft);
        },
        InstructionKind::DclResourceStructured { stride, operands } => {
            write_op0(w, operands, ft);
            write_dec_tag(w, " stride(", *stride);
            proof {
                lemma_cat3(
                    old(w)@,
                    spaced_operands_text(operand_models(operands@), 0, ft@),
                    stride_text(*stride),
                );
            }
        },
        InstructionKind::DclFunctionBody { index } => {
            write_spaced_dec(w, *index);
        },
        InstructionKind::DclFunctionTable { table_index, body_indices } => {
            write_spaced_dec(w, *table_index);
            write_u32_list(w, body_indices);
            proof {
                lemma_append4(
                    old(w)@,
                    spaced_dec(*table_index),
                    " {"@,
                    word_list_text(body_indices@, 0),
                    seq!['}'],
                );
            }
        },
        InstructionKind::DclInterface { interface_index, num_call_sites, table_indices } => {
            write_spaced_dec(w, *interface_index);
            write_spaced_dec(w, *num_call_sites);
            let ghost two = spaced_dec(*interface_index) + spaced_dec(*num_call_sites);
            proof {
                lemma_cat3(old(w)@, spaced_dec(*interface_index), spaced_dec(*num_call_sites));
            }
            write_u32_list(w, table_indices);
            proof {
                lemma_append4(
                    old(w)@,
                    two,
                    " {"@,
                    word_list_text(table_indices@, 0),
                    seq!['}'],
                );
            }
        },
        InstructionKind::DclIndexRange { operands, count } => {
            write_op0(w, operands, ft);
            write_spaced_dec(w, *count);
            proof {
                lemma_cat3(
                    old(w)@,
                    spaced_operands_text(operand_models(operands@), 0, ft@),
                    spaced_dec(*count),
                );
            }
        },
        _ => {
            assert(w@ =~= old(w)@ + Seq::<char>::empty());
        },
    }
}

// ---------------------------------------------------------------------------
// Custom data
// ---------------------------------------------------------------------------

fn write_row(w: &mut String, row: [u32; 4])
    ensures
        final(w)@ == old(w)@ + row_text(row),
{
    push_text(w, " ");
    write_hex8(w, row[0]);
    push_text(w, " ");
    write_hex8(w, row[1]);
    push_text(w, " ");
    write_hex8(w, row[2]);
    push_text(w, " ");
    write_hex8(w, row[3]);
    assert(w@ =~= old(w)@ + row_text(row));
}

fn write_rows(w: &mut String, values: &Vec<[u32; 4]>)
    ensures
        final(w)@ == old(w)@ + rows_text(values@, 0),
{
    let mut i: usize = 0;
    while i < values.len()
        invariant
            i <= values.len(),
            w@ + rows_text(values@, i as int) == old(w)@ + rows_text(values@, 0),
        decreases values.len() - i,
    {
        let ghost before = w@;
        if i > 0 {
            push_text(w, ",");
        }
        write_row(w, values[i]);
        assert(before + rows_text(values@, i as int) =~= w@ + rows_text(values@, i as int + 1));
        i += 1;
    }
    assert(w@ =~= old(w)@ + rows_text(values@, 0));
}

fn write_raw_words(w: &mut String, raw: &Vec<u32>)
    ensures
        final(w)@ == old(w)@ + raw_text(raw@, 0),
{
    let mut i: usize = 0;
    while i < raw.len()
        invariant
            i <= raw.len(),
            w@ + raw_text(raw@, i as int) == old(w)@ + raw_text(raw@, 0),
        decreases raw.len() - i,
    {
        let ghost before = w@;
        push_text(w, " ");
        write_hex8(w, raw[i]);
        assert(before + raw_text(raw@, i as int) =~= w@ + raw_text(raw@, i as int + 1));
        i += 1;
    }
    assert(w@ =~= old(w)@ + raw_text(raw@, 0));
}

fn write_data_tag(w: &mut String, t: CustomDataType)
    ensures
        final(w)@ == old(w)@ + data_tag_text(t),
{
    match t {
        CustomDataType::ImmediateConstantBuffer => push_text(w, "icb"),
        CustomDataType::Comment => push_text(w, "comment"),
        CustomDataType::DebugInfo => push_text(w, "debuginfo"),
        CustomDataType::Opaque => push_text(w, "opaque"),
        CustomDataType::Other(v) => write_dec_tag(w, "other(", v),
    }
}

/// Write a data block behind its keyword.
fn write_custom_data(
    w: &mut String,
    subtype: CustomDataType,
    values: &Vec<[u32; 4]>,
    raw: &Vec<u32>,
)
    ensures
        final(w)@ == old(w)@ + custom_data_text(subtype, values@, raw@),
{
    push_text(w, " ");
    write_data_tag(w, subtype);
    push_text(w, " {");
    match subtype {
        CustomDataType::ImmediateConstantBuffer => {
            write_rows(w, values);
        },
        _ => {
            write_raw_words(w, raw);
        },
    }
    push_text(w, " }");
    assert(w@ =~= old(w)@ + custom_data_text(subtype, values@, raw@));
}

} // verus!
