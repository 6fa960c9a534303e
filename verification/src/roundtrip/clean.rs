//! Programs are written on clean lines: without comments, and without white
//! space at their ends.

use vstd::prelude::*;

use crate::floats::{Spellings, is_float_char, spelled};
use crate::grammar::shex::text::{
    components_implied, components_text, core_text, hex8_text, imm_text, imms_text, index_text,
    indices_text, is_inline_immediate, is_number, mask_text, mnemonic_text, mod_nz, mod_off, mod_pm,
    mod_res, mod_ri, mod_rt, mod_sat, mod_sf, modifiers_text, offsets_text, operand_text, rd_dim,
    rd_stride, register_text, resource_dim_text, resource_rt_text, return_type_text,
    return_types_text, signed_value,
};
use crate::grammar::tables::{axis_char, dimensions, table_name};
use crate::numerals::{
    dec_text, hex_padded, hex_text, int_text, is_lower_digit, lemma_number_text,
    padded_hex_reads_back,
};
use crate::roundtrip::mnemonics::lemma_register_number;
use crate::roundtrip::modifiers::{lemma_dimension, lemma_return_type};
use crate::roundtrip::names::{
    is_mnemonic, is_name_char, is_register_prefix, is_word, is_word_char, lemma_mnemonic,
    lemma_register_prefix,
};
use crate::shex::ir::{
    ComponentSelect, ImmediateType, IndexModel, Modifiers, Opcode, OperandModel, RegisterType,
    ReturnType,
};
use crate::shex::opcodes::opcode_numbers;

verus! {

/// Whether `c` can stand on a line of a program: it is a printable character
/// other than a slash.
pub open spec fn is_plain_char(c: char) -> bool {
    ' ' <= c && c <= '~' && c != '/'
}

/// Whether all characters can stand on a line of a program.
pub open spec fn plain(s: Seq<char>) -> bool {
    forall|i: int| 0 <= i < s.len() ==> is_plain_char(#[trigger] s[i])
}

/// Whether none of the characters is a space, and all can stand on a line.
pub open spec fn inked(s: Seq<char>) -> bool {
    forall|i: int| 0 <= i < s.len() ==> is_plain_char(#[trigger] s[i]) && s[i] != ' '
}

/// Whether the text does not end with a space.
pub open spec fn closed(s: Seq<char>) -> bool {
    s.len() == 0 || s.last() != ' '
}

/// Joined texts are plain where the parts are.
pub broadcast proof fn lemma_plain_concat(a: Seq<char>, b: Seq<char>)
    ensures
        #[trigger] plain(a + b) == (plain(a) && plain(b)),
{
    let s = a + b;
    if plain(s) {
        assert forall|i: int| 0 <= i < a.len() implies is_plain_char(#[trigger] a[i]) by {
            assert(s[i] == a[i]);
        }
        assert forall|i: int| 0 <= i < b.len() implies is_plain_char(#[trigger] b[i]) by {
            assert(s[a.len() + i] == b[i]);
        }
    }
}

/// Joined texts are inked where the parts are.
pub broadcast proof fn lemma_inked_concat(a: Seq<char>, b: Seq<char>)
    ensures
        #[trigger] inked(a + b) == (inked(a) && inked(b)),
{
    let s = a + b;
    if inked(s) {
        assert forall|i: int| 0 <= i < a.len() implies is_plain_char(#[trigger] a[i]) && a[i]
            != ' ' by {
            assert(s[i] == a[i]);
        }
        assert forall|i: int| 0 <= i < b.len() implies is_plain_char(#[trigger] b[i]) && b[i]
            != ' ' by {
            assert(s[a.len() + i] == b[i]);
        }
    }
}

/// What is inked is plain and closed.
pub proof fn lemma_inked(s: Seq<char>)
    requires
        inked(s),
    ensures
        plain(s),
        closed(s),
{
    if s.len() > 0 {
        assert(s[s.len() - 1] != ' ');
    }
}

/// Joined texts are closed where the last part is, or where it is empty and the
/// one before is closed.
pub proof fn lemma_closed_concat(a: Seq<char>, b: Seq<char>)
    requires
        closed(b),
        b.len() > 0 || closed(a),
    ensures
        closed(a + b),
{
    let s = a + b;
    if b.len() > 0 {
        assert(s.last() == b.last());
    } else {
        assert(s =~= a);
    }
}

/// Names are inked.
pub proof fn lemma_word_inked(s: Seq<char>)
    requires
        is_word(s),
    ensures
        inked(s),
{
    assert forall|i: int| 0 <= i < s.len() implies is_plain_char(#[trigger] s[i]) && s[i]
        != ' ' by {
        assert(is_word_char(s[i]));
    }
}

/// Numerals are inked.
pub proof fn lemma_number_inked(n: nat)
    ensures
        inked(dec_text(n)),
        inked(hex_text(n)),
        dec_text(n).len() > 0,
        hex_text(n).len() > 0,
{
    lemma_number_text(n, 10);
    lemma_number_text(n, 16);
    let d = dec_text(n);
    let h = hex_text(n);
    assert forall|i: int| 0 <= i < d.len() implies is_plain_char(#[trigger] d[i]) && d[i]
        != ' ' by {
        assert(is_lower_digit(d[i], 10));
    }
    assert forall|i: int| 0 <= i < h.len() implies is_plain_char(#[trigger] h[i]) && h[i]
        != ' ' by {
        assert(is_lower_digit(h[i], 16));
    }
}

/// Padded numerals are inked.
pub proof fn lemma_padded_inked(n: nat)
    ensures
        inked(hex_padded(n, 8)),
        hex_padded(n, 8).len() > 0,
{
    padded_hex_reads_back(n, 8, n);
    let h = hex_padded(n, 8);
    assert forall|i: int| 0 <= i < h.len() implies is_plain_char(#[trigger] h[i]) && h[i]
        != ' ' by {
        assert(is_lower_digit(h[i], 16));
    }
}

/// Signed numerals are inked.
pub proof fn lemma_int_inked(i: int)
    ensures
        inked(int_text(i)),
        int_text(i).len() > 0,
{
    broadcast use lemma_inked_concat;

    lemma_number_inked((if i < 0 {
        -i
    } else {
        i
    }) as nat);
}

/// `0x` and eight digits are inked.
pub proof fn lemma_hex8_inked(v: u32)
    ensures
        inked(hex8_text(v)),
        hex8_text(v).len() > 0,
{
    broadcast use lemma_inked_concat;

    reveal_strlit("0x");
    lemma_padded_inked(v as nat);
}

// ---------------------------------------------------------------------------
// Mnemonics and modifiers
// ---------------------------------------------------------------------------

/// A mnemonic is inked.
pub proof fn lemma_mnemonic_inked(op: Opcode)
    ensures
        inked(mnemonic_text(op)),
        mnemonic_text(op).len() > 0,
{
    broadcast use lemma_inked_concat;

    match op {
        Opcode::Unknown(v) => {
            reveal_strlit("op");
            lemma_number_inked(v as nat);
        },
        _ => {
            opcode_numbers(op);
            lemma_mnemonic(op.spec_to_u32());
            reveal(is_mnemonic);
            lemma_word_inked(op.mnemonic());
        },
    }
}

proof fn lemma_res_inked(rd: u32)
    ensures
        inked(resource_dim_text(rd)),
{
    broadcast use lemma_inked_concat;

    reveal_strlit("_res(");
    reveal_strlit(",stride=");
    reveal_strlit("_rd");
    lemma_padded_inked(rd as nat);
    lemma_number_inked(rd_stride(rd) as nat);
    lemma_dimension(rd_dim(rd));
    match table_name(dimensions(), rd_dim(rd)) {
        Some(n) => {
            lemma_word_inked(n);
        },
        None => {},
    }
    assert(inked("_res("@));
    assert(inked(",stride="@));
    assert(inked("_rd"@));
    assert(inked(seq![')']));
}

/// Return types are inked.
pub proof fn lemma_types_inked(a: ReturnType, b: ReturnType, c: ReturnType, d: ReturnType)
    ensures
        inked(return_types_text(a, b, c, d)),
        return_types_text(a, b, c, d).len() > 0,
{
    broadcast use lemma_inked_concat;

    lemma_return_type(a);
    lemma_return_type(b);
    lemma_return_type(c);
    lemma_return_type(d);
    lemma_word_inked(return_type_text(a));
    lemma_word_inked(return_type_text(b));
    lemma_word_inked(return_type_text(c));
    lemma_word_inked(return_type_text(d));
    assert(inked(seq![',']));
}

proof fn lemma_rt_inked(rr: u32)
    ensures
        inked(resource_rt_text(rr)),
{
    broadcast use lemma_inked_concat;

    reveal_strlit("_rt(");
    reveal_strlit("_rr");
    lemma_padded_inked(rr as nat);
    lemma_types_inked(
        ReturnType::spec_from_u32(crate::grammar::shex::text::rr_part(rr, 0)),
        ReturnType::spec_from_u32(crate::grammar::shex::text::rr_part(rr, 1)),
        ReturnType::spec_from_u32(crate::grammar::shex::text::rr_part(rr, 2)),
        ReturnType::spec_from_u32(crate::grammar::shex::text::rr_part(rr, 3)),
    );
    assert(inked("_rt("@));
    assert(inked("_rr"@));
    assert(inked(seq![')']));
}

proof fn lemma_off_inked(o: [i8; 3])
    ensures
        inked(offsets_text(o)),
{
    broadcast use lemma_inked_concat;

    reveal_strlit("_off(");
    lemma_int_inked(o[0] as int);
    lemma_int_inked(o[1] as int);
    lemma_int_inked(o[2] as int);
    assert(inked("_off("@));
    assert(inked(seq![',']));
    assert(inked(seq![')']));
}

/// Modifiers are inked.
pub proof fn lemma_modifiers_inked(m: Modifiers)
    ensures
        inked(modifiers_text(m)),
{
    broadcast use lemma_inked_concat;

    reveal_strlit("_ri");
    reveal_strlit("_sat");
    reveal_strlit("_nz");
    reveal_strlit("_pm");
    reveal_strlit("_sf");
    assert(inked("_ri"@));
    assert(inked("_sat"@));
    assert(inked("_nz"@));
    assert(inked("_pm"@));
    assert(inked("_sf"@));
    lemma_number_inked(m.precise_mask as nat);
    lemma_number_inked(m.sync_flags as nat);
    match m.resinfo_return_type {
        Some(n) => {
            lemma_number_inked(n as nat);
        },
        None => {},
    }
    match m.tex_offsets {
        Some(o) => {
            lemma_off_inked(o);
        },
        None => {},
    }
    match m.resource_dim {
        Some(r) => {
            lemma_res_inked(r);
        },
        None => {},
    }
    match m.resource_return_type {
        Some(r) => {
            lemma_rt_inked(r);
        },
        None => {},
    }
    assert(inked(mod_ri(m)));
    assert(inked(mod_sat(m)));
    assert(inked(mod_nz(m)));
    assert(inked(mod_pm(m)));
    assert(inked(mod_sf(m)));
    assert(inked(mod_off(m)));
    assert(inked(mod_res(m)));
    assert(inked(mod_rt(m)));
}

// ---------------------------------------------------------------------------
// Operands
// ---------------------------------------------------------------------------

proof fn lemma_imm_inked(v: u32, ty: ImmediateType, ft: Spellings)
    ensures
        inked(imm_text(v, ty, ft)),
{
    lemma_hex8_inked(v);
    lemma_int_inked(signed_value(v));
    match spelled(ft, v) {
        Some(s) => {
            assert forall|i: int| 0 <= i < s.len() implies is_plain_char(#[trigger] s[i]) && s[i]
                != ' ' by {
                assert(is_float_char(s[i]));
            }
        },
        None => {},
    }
}

proof fn lemma_imms_plain(vals: Seq<u32>, k: int, ty: ImmediateType, ft: Spellings)
    ensures
        plain(imms_text(vals, k, ty, ft)),
    decreases vals.len() - k,
{
    broadcast use lemma_plain_concat;

    if 0 <= k < vals.len() {
        reveal_strlit(", ");
        assert(plain(", "@));
        lemma_imm_inked(vals[k], ty, ft);
        lemma_inked(imm_text(vals[k], ty, ft));
        lemma_imms_plain(vals, k + 1, ty, ft);
    }
}

proof fn lemma_mask_inked(m: u8, k: int)
    ensures
        inked(mask_text(m, k)),
    decreases 4 - k,
{
    broadcast use lemma_inked_concat;

    if 0 <= k < 4 {
        lemma_mask_inked(m, k + 1);
        assert(inked(seq![axis_char(k)]));
    }
}

proof fn lemma_components_inked(c: ComponentSelect)
    ensures
        inked(components_text(c)),
{
    broadcast use lemma_inked_concat;

    reveal_strlit(".1");
    match c {
        ComponentSelect::Mask(m) => {
            lemma_mask_inked(m, 0);
            assert(inked(seq![':']));
        },
        _ => {},
    }
}

proof fn lemma_register_inked(r: RegisterType)
    ensures
        inked(register_text(r)),
        register_text(r).len() > 0,
{
    broadcast use lemma_inked_concat;

    match r {
        RegisterType::Unknown(v) => {
            reveal_strlit("?reg(");
            assert(inked("?reg("@));
            lemma_number_inked(v as nat);
            assert(inked(seq![')']));
        },
        _ => {
            lemma_register_number(r);
            lemma_register_prefix(r.spec_to_u32());
            reveal(is_register_prefix);
            let p = r.prefix_text();
            assert forall|i: int| 0 <= i < p.len() implies is_plain_char(#[trigger] p[i]) && p[i]
                != ' ' by {
                assert(is_name_char(p[i]));
            }
        },
    }
}

/// An index is plain.
proof fn lemma_index_plain(ix: IndexModel, ft: Spellings)
    ensures
        plain(index_text(ix, ft)),
    decreases ix, 0int,
{
    broadcast use lemma_plain_concat;

    match ix {
        IndexModel::Imm32(v) => {
            lemma_number_inked(v as nat);
            lemma_inked(dec_text(v as nat));
        },
        IndexModel::Imm64(v) => {
            lemma_number_inked(v as nat);
            lemma_inked(dec_text(v as nat));
            let d = dec_text(v as nat);
            assert(d.push('L') =~= d + seq!['L']);
            assert(plain(seq!['L']));
        },
        IndexModel::Relative(op) => {
            lemma_operand_plain(*op, ImmediateType::Uint, ft);
        },
        IndexModel::RelativePlusImm(v, op) => {
            lemma_operand_plain(*op, ImmediateType::Uint, ft);
            lemma_number_inked(v as nat);
            lemma_inked(dec_text(v as nat));
            reveal_strlit(" + ");
            assert(plain(" + "@));
        },
    }
}

/// Indices are plain and closed.
proof fn lemma_indices_plain(ix: Seq<IndexModel>, k: int, ft: Spellings)
    ensures
        plain(indices_text(ix, k, ft)),
        closed(indices_text(ix, k, ft)),
        0 <= k < ix.len() ==> indices_text(ix, k, ft).len() > 0,
    decreases ix, ix.len() - k,
{
    broadcast use lemma_plain_concat;

    if 0 <= k < ix.len() {
        lemma_index_plain(ix[k], ft);
        lemma_indices_plain(ix, k + 1, ft);
        let t = index_text(ix[k], ft);
        assert(plain(seq!['[']));
        assert(plain(seq![']']));
        let rest = indices_text(ix, k + 1, ft);
        if k == 0 && is_number(ix[k]) {
            let v = match ix[k] {
                IndexModel::Imm32(v) => v as nat,
                IndexModel::Imm64(v) => v as nat,
                _ => 0,
            };
            lemma_number_inked(v);
            lemma_inked(dec_text(v));
            lemma_closed_concat(t, rest);
        } else {
            let b = seq!['['] + t + seq![']'];
            assert(b.last() == ']');
            lemma_closed_concat(b, rest);
        }
    }
}

/// Sign and bars about a text.
proof fn lemma_signed_plain(c: Seq<char>, d: Seq<char>, abs: bool, negate: bool)
    requires
        plain(c),
        closed(c),
        c.len() > 0,
        plain(d),
        closed(d),
    ensures
        ({
            let bar = if abs {
                seq!['|']
            } else {
                Seq::<char>::empty()
            };
            let sign = if negate {
                seq!['-']
            } else {
                Seq::<char>::empty()
            };
            let s = sign + (bar + (c + (d + bar)));
            plain(s) && closed(s) && s.len() > 0
        }),
{
    broadcast use lemma_plain_concat;

    let bar = if abs {
        seq!['|']
    } else {
        Seq::<char>::empty()
    };
    let sign = if negate {
        seq!['-']
    } else {
        Seq::<char>::empty()
    };
    assert(plain(bar));
    assert(plain(sign));
    lemma_closed_concat(d, bar);
    lemma_closed_concat(c, d + bar);
    lemma_closed_concat(bar, c + (d + bar));
    lemma_closed_concat(sign, bar + (c + (d + bar)));
}

/// An operand is plain.
#[verifier::rlimit(40)]
pub proof fn lemma_operand_plain(op: OperandModel, ty: ImmediateType, ft: Spellings)
    ensures
        plain(operand_text(op, ty, ft)),
        closed(operand_text(op, ty, ft)),
        operand_text(op, ty, ft).len() > 0,
    decreases op, 1int,
{
    let c = core_text(op, ty, ft);
    let d = if components_implied(op) {
        Seq::<char>::empty()
    } else {
        components_text(op.components)
    };
    lemma_core_plain(op, ty, ft);
    lemma_components_inked(op.components);
    lemma_inked(components_text(op.components));
    lemma_signed_plain(c, d, op.abs, op.negate);
}

/// The middle of an operand is plain.
#[verifier::rlimit(40)]
proof fn lemma_core_plain(op: OperandModel, ty: ImmediateType, ft: Spellings)
    ensures
        plain(core_text(op, ty, ft)),
        closed(core_text(op, ty, ft)),
        core_text(op, ty, ft).len() > 0,
    decreases op, 0int,
{
    broadcast use lemma_plain_concat;

    let c = core_text(op, ty, ft);
    if is_inline_immediate(op) {
        assert(plain(seq![')']));
        reveal_strlit("l(");
        reveal_strlit("d(");
        assert(plain("l("@));
        assert(plain("d("@));
        lemma_imms_plain(op.immediate_values, 0, ty, ft);
        lemma_imms_plain(op.immediate_values, 0, ImmediateType::Uint, ft);
        assert(c.last() == ')');
    } else {
        lemma_register_inked(op.reg_type);
        lemma_inked(register_text(op.reg_type));
        lemma_indices_plain(op.indices, 0, ft);
        lemma_closed_concat(register_text(op.reg_type), indices_text(op.indices, 0, ft));
    }
}

} // verus!
