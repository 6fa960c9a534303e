//! Operands read back.

use vstd::prelude::*;

use crate::floats::{Spellings, holds, is_float_char, looks_float, occurs_at, spelled};
use crate::grammar::shex::reading::{
    at_char, at_digit, axis_or_zero, mask_of, read_bracket_index, read_brackets, read_components,
    read_core, read_imm_list, read_immediate, read_immediates, read_indices, read_number_index,
    read_operand, skip_char, span_axes, word_of_int, Core,
};
use crate::grammar::shex::text::{
    components_implied, components_text, core_text, hex8_text, imm_text, imms_text, index_text,
    indices_text, is_inline_immediate, is_number, mask_has, mask_text, operand_text, register_text,
    signed_value,
};
use crate::grammar::tables::{axis_char, axis_value};
use crate::numerals::{
    dec_text, hex_padded, int_reads_back, int_text, is_lower_digit, lemma_number_text,
    number_reads_back, padded_hex_reads_back, parse_int,
};
use crate::roundtrip::mnemonics::{follows_prefix, lemma_read_register, lemma_register_number};
use crate::roundtrip::names::{is_name_char, is_register_prefix, lemma_register_prefix};
use crate::shex::ir::{ComponentSelect, ImmediateType, IndexModel, OperandModel, RegisterType};
use crate::text::{
    is_digit, lacks, lemma_span_digits_concat, lemma_span_until_concat, skip_spaces, starts_with,
    strip_prefix,
};

verus! {

// ---------------------------------------------------------------------------
// Operands that can be written
// ---------------------------------------------------------------------------

/// Whether components can be written: components are below four and masks have
/// four bits.
pub open spec fn valid_components(c: ComponentSelect) -> bool {
    match c {
        ComponentSelect::Mask(m) => m < 16,
        ComponentSelect::Scalar(k) => k < 4,
        ComponentSelect::Swizzle(s) => s[0] < 4 && s[1] < 4 && s[2] < 4 && s[3] < 4,
        _ => true,
    }
}

/// Whether a register file can be written: a number stands only for one without
/// a name.
pub open spec fn valid_register(r: RegisterType) -> bool {
    r is Unknown ==> r->Unknown_0 > 40
}

/// Whether an operand can be written: its parts can, only an immediate operand
/// without indices has values, and one with values selects components.
pub open spec fn valid_operand(op: OperandModel) -> bool
    decreases op, 1int,
{
    &&& valid_register(op.reg_type)
    &&& valid_components(op.components)
    &&& op.immediate_values.len() > 0 ==> is_inline_immediate(op) && !(
    op.components is ZeroComponent)
    &&& valid_indices(op.indices, 0)
}

/// Whether the indices from number `k` on can be written.
pub open spec fn valid_indices(ix: Seq<IndexModel>, k: int) -> bool
    decreases ix, ix.len() - k,
{
    k < 0 || k >= ix.len() || (valid_index(ix[k]) && valid_indices(ix, k + 1))
}

/// Whether an index can be written.
pub open spec fn valid_index(ix: IndexModel) -> bool
    decreases ix, 0int,
{
    match ix {
        IndexModel::Relative(op) => valid_operand(*op),
        IndexModel::RelativePlusImm(_, op) => valid_operand(*op),
        _ => true,
    }
}

// ---------------------------------------------------------------------------
// Immediate values
// ---------------------------------------------------------------------------

/// `0x` and eight digits.
pub proof fn lemma_hex8(v: u32)
    ensures
        hex8_text(v).len() > 2,
        hex8_text(v)[0] == '0',
        hex8_text(v)[1] == 'x',
        starts_with(hex8_text(v), "0x"@),
        strip_prefix(hex8_text(v), "0x"@) == Some(hex_padded(v as nat, 8)),
        crate::grammar::shex::reading::read_hex0x(hex8_text(v)) == Ok::<nat, Seq<char>>(v as nat),
        forall|i: int|
            0 <= i < hex8_text(v).len() ==> #[trigger] hex8_text(v)[i] == 'x' || is_lower_digit(
                hex8_text(v)[i],
                16,
            ),
{
    reveal_strlit("0x");
    let d = hex_padded(v as nat, 8);
    let s = hex8_text(v);
    padded_hex_reads_back(v as nat, 8, 0xffff_ffff);
    assert(s.take(2) =~= "0x"@);
    assert(s.skip(2) =~= d);
    assert forall|i: int| 0 <= i < s.len() implies #[trigger] s[i] == 'x' || is_lower_digit(
        s[i],
        16,
    ) by {
        if i >= 2 {
            assert(is_lower_digit(d[i - 2], 16));
        }
    }
}

/// One immediate value reads back, and its text holds no mark that ends it.
proof fn lemma_immediate(v: u32, ty: ImmediateType, ft: Spellings)
    ensures
        ({
            let t = imm_text(v, ty, ft);
            &&& t.len() > 0
            &&& lacks(t, ',')
            &&& lacks(t, ')')
            &&& lacks(t, ' ')
            &&& read_immediate(t, ft) == Ok::<u32, Seq<char>>(v)
        }),
{
    let t = imm_text(v, ty, ft);
    reveal_strlit("0x");
    lemma_hex8(v);
    if ty == ImmediateType::Float && spelled(ft, v) is Some {
        assert forall|i: int| 0 <= i < t.len() implies #[trigger] t[i] != ',' && t[i] != ')' && t[i]
            != ' ' && t[i] != 'x' by {
            assert(is_float_char(t[i]));
        }
        if starts_with(t, "0x"@) {
            assert(t.take(2)[1] == 'x');
            assert(t[1] != 'x');
        }
    } else if ty == ImmediateType::Int {
        lemma_int(v);
    } else {
        assert(t == hex8_text(v));
        assert forall|i: int| 0 <= i < t.len() implies #[trigger] t[i] != ',' && t[i] != ')' && t[i]
            != ' ' by {
            assert(hex8_text(v)[i] == 'x' || is_lower_digit(hex8_text(v)[i], 16));
        }
    }
}

/// An immediate value reads back bit for bit, whatever it is and however it is
/// written.
pub proof fn immediate_reads_back(v: u32, ty: ImmediateType, ft: Spellings)
    ensures
        read_immediate(imm_text(v, ty, ft), ft) == Ok::<u32, Seq<char>>(v),
{
    lemma_immediate(v, ty, ft);
}

proof fn lemma_int(v: u32)
    ensures
        ({
            let t = int_text(signed_value(v));
            &&& t.len() > 0
            &&& lacks(t, ',')
            &&& lacks(t, ')')
            &&& lacks(t, ' ')
            &&& !starts_with(t, "0x"@)
            &&& !looks_float(t)
            &&& parse_int(t, 0x7fff_ffff) == Some(signed_value(v))
            &&& word_of_int(signed_value(v)) == v
        }),
{
    let i = signed_value(v);
    let t = int_text(i);
    let n = (if i < 0 {
        -i
    } else {
        i
    }) as nat;
    lemma_number_text(n, 10);
    int_reads_back(i, 0x7fff_ffff);
    let d = dec_text(n);
    assert forall|k: int| 0 <= k < t.len() implies #[trigger] t[k] == '-' || is_digit(t[k]) by {
        if i < 0 {
            if k > 0 {
                assert(is_lower_digit(d[k - 1], 10));
            }
        } else {
            assert(is_lower_digit(d[k], 10));
        }
    }
    reveal_strlit("0x");
    reveal_strlit("inf");
    reveal_strlit("nan");
    reveal_strlit("NaN");
    if starts_with(t, "0x"@) {
        assert(t.take(2)[1] == 'x');
        assert(t[1] == '-' || is_digit(t[1]));
    }
    if t.contains('.') || t.contains('e') || t.contains('E') {
        let k = choose|k: int| 0 <= k < t.len() && (t[k] == '.' || t[k] == 'e' || t[k] == 'E');
        assert(t[k] == '-' || is_digit(t[k]));
    }
    if holds(t, "inf"@) {
        let k = choose|k: int| occurs_at(t, "inf"@, k);
        assert(t.subrange(k, k + 3)[0] == 'i');
        assert(t[k] == '-' || is_digit(t[k]));
    }
    if holds(t, "nan"@) {
        let k = choose|k: int| occurs_at(t, "nan"@, k);
        assert(t.subrange(k, k + 3)[0] == 'n');
        assert(t[k] == '-' || is_digit(t[k]));
    }
    if holds(t, "NaN"@) {
        let k = choose|k: int| occurs_at(t, "NaN"@, k);
        assert(t.subrange(k, k + 3)[0] == 'N');
        assert(t[k] == '-' || is_digit(t[k]));
    }
}

/// Skipping a space before something else.
pub proof fn lemma_skip_space(s: Seq<char>)
    requires
        s.len() == 0 || s[0] != ' ',
    ensures
        skip_spaces(s) == s,
        skip_spaces(seq![' '] + s) == s,
{
    reveal_with_fuel(skip_spaces, 2);
    let t = seq![' '] + s;
    assert(t.skip(1) =~= s);
}

/// Whether the text is one value and holds no mark that ends it.
#[verifier::opaque]
pub open spec fn is_value(t: Seq<char>, v: u32, ft: Spellings) -> bool {
    &&& t.len() > 0
    &&& lacks(t, ',')
    &&& lacks(t, ')')
    &&& lacks(t, ' ')
    &&& read_immediate(t, ft) == Ok::<u32, Seq<char>>(v)
}

/// Texts from number `k` on, separated by commas.
pub open spec fn comma_list(ts: Seq<Seq<char>>, k: int) -> Seq<char>
    decreases ts.len() - k,
{
    if k < 0 || k >= ts.len() {
        Seq::empty()
    } else if k + 1 == ts.len() {
        ts[k]
    } else {
        ts[k] + (seq![','] + (seq![' '] + comma_list(ts, k + 1)))
    }
}

/// A value before others reads back.
proof fn lemma_value_then(
    t: Seq<char>,
    v: u32,
    more: Seq<char>,
    vs: Seq<u32>,
    rest: Seq<char>,
    ft: Spellings,
)
    requires
        lacks(t, ','),
        lacks(t, ')'),
        read_immediate(t, ft) == Ok::<u32, Seq<char>>(v),
        more.len() > 0,
        more[0] != ' ',
        read_immediates(more, ft) == Ok::<(Seq<u32>, Seq<char>), Seq<char>>((vs, rest)),
    ensures
        read_immediates(t + (seq![','] + (seq![' '] + more)), ft) == Ok::<
            (Seq<u32>, Seq<char>),
            Seq<char>,
        >((seq![v] + vs, rest)),
{
    let tail = seq![','] + (seq![' '] + more);
    let s = t + tail;
    lemma_span_until_concat(t, tail, ',', ')', ')');
    assert(s[t.len() as int] == ',');
    assert(s.skip(t.len() as int + 1) =~= seq![' '] + more);
    lemma_skip_space(more);
}

/// The last value reads back.
proof fn lemma_value_last(t: Seq<char>, v: u32, rest: Seq<char>, ft: Spellings)
    requires
        lacks(t, ','),
        lacks(t, ')'),
        read_immediate(t, ft) == Ok::<u32, Seq<char>>(v),
    ensures
        read_immediates(t + (seq![')'] + rest), ft) == Ok::<(Seq<u32>, Seq<char>), Seq<char>>(
            (seq![v], rest),
        ),
{
    let tail = seq![')'] + rest;
    let s = t + tail;
    lemma_span_until_concat(t, tail, ',', ')', ')');
    assert(s[t.len() as int] == ')');
    assert(s.skip(t.len() as int + 1) =~= rest);
}

proof fn lemma_values(ts: Seq<Seq<char>>, vals: Seq<u32>, k: int, ft: Spellings, rest: Seq<char>)
    requires
        0 <= k < vals.len(),
        ts.len() == vals.len(),
        forall|i: int| 0 <= i < ts.len() ==> is_value(#[trigger] ts[i], vals[i], ft),
    ensures
        comma_list(ts, k).len() > 0,
        comma_list(ts, k)[0] != ' ',
        comma_list(ts, k)[0] != ')',
        read_immediates(comma_list(ts, k) + (seq![')'] + rest), ft) == Ok::<
            (Seq<u32>, Seq<char>),
            Seq<char>,
        >((vals.skip(k), rest)),
    decreases vals.len() - k,
{
    assert(is_value(ts[k], vals[k], ft));
    reveal(is_value);
    let t = ts[k];
    assert(t[0] != ' ' && t[0] != ')');
    let close = seq![')'] + rest;
    if k + 1 < vals.len() {
        let w = comma_list(ts, k + 1);
        let more = w + close;
        lemma_values(ts, vals, k + 1, ft, rest);
        assert(more[0] == w[0]);
        lemma_value_then(t, vals[k], more, vals.skip(k + 1), rest, ft);
        assert(comma_list(ts, k) + close =~= t + (seq![','] + (seq![' '] + more)));
        assert(comma_list(ts, k)[0] == t[0]);
        assert(vals.skip(k) =~= seq![vals[k]] + vals.skip(k + 1));
    } else {
        lemma_value_last(t, vals[k], rest, ft);
        assert(vals.skip(k) =~= seq![vals[k]]);
    }
}

/// The texts of immediate values.
pub open spec fn value_texts(vals: Seq<u32>, ty: ImmediateType, ft: Spellings) -> Seq<Seq<char>> {
    Seq::new(vals.len(), |i: int| imm_text(vals[i], ty, ft))
}

/// The list of immediate values as it is written.
proof fn lemma_imms_text(vals: Seq<u32>, k: int, ty: ImmediateType, ft: Spellings)
    requires
        0 <= k < vals.len(),
    ensures
        imms_text(vals, k, ty, ft) == (if k > 0 {
            seq![','] + (seq![' '] + comma_list(value_texts(vals, ty, ft), k))
        } else {
            comma_list(value_texts(vals, ty, ft), k)
        }),
    decreases vals.len() - k,
{
    let ts = value_texts(vals, ty, ft);
    let t = imm_text(vals[k], ty, ft);
    assert(ts[k] == t);
    reveal_strlit(", ");
    assert(", "@ =~= seq![','] + seq![' ']);
    let next = imms_text(vals, k + 1, ty, ft);
    let sep = if k > 0 {
        ", "@
    } else {
        Seq::<char>::empty()
    };
    assert(imms_text(vals, k, ty, ft) == sep + t + next);
    let w = comma_list(ts, k);
    assert(t + next =~= w) by {
        if k + 1 < vals.len() {
            lemma_imms_text(vals, k + 1, ty, ft);
        } else {
            assert(next =~= Seq::empty());
        }
    }
    assert(sep + t + next =~= sep + w);
    if k > 0 {
        assert(sep + w =~= seq![','] + (seq![' '] + w));
    } else {
        assert(sep + w =~= w);
    }
}

/// A list of immediate values reads back.
proof fn lemma_imm_list(vals: Seq<u32>, ty: ImmediateType, ft: Spellings, rest: Seq<char>)
    ensures
        read_imm_list(imms_text(vals, 0, ty, ft) + (seq![')'] + rest), ft) == Ok::<
            (Seq<u32>, Seq<char>),
            Seq<char>,
        >((vals, rest)),
{
    let s = imms_text(vals, 0, ty, ft) + (seq![')'] + rest);
    if vals.len() == 0 {
        assert(s =~= seq![')'] + rest);
        assert(s.skip(1) =~= rest);
        assert(vals =~= Seq::empty());
    } else {
        let ts = value_texts(vals, ty, ft);
        assert forall|i: int| 0 <= i < ts.len() implies is_value(
            #[trigger] ts[i],
            vals[i],
            ft,
        ) by {
            reveal(is_value);
            lemma_immediate(vals[i], ty, ft);
        }
        lemma_imms_text(vals, 0, ty, ft);
        lemma_values(ts, vals, 0, ft, rest);
        assert(s[0] == comma_list(ts, 0)[0]);
        assert(vals.skip(0) =~= vals);
    }
}

// ---------------------------------------------------------------------------
// Components
// ---------------------------------------------------------------------------

/// Whether the text can follow the components of an operand.
pub open spec fn follows_components(rest: Seq<char>) -> bool {
    rest.len() == 0 || rest[0] == ',' || rest[0] == ' ' || rest[0] == ']' || rest[0] == '|'
}

proof fn lemma_span_axes(t: Seq<char>, rest: Seq<char>)
    requires
        forall|i: int| 0 <= i < t.len() ==> axis_value(#[trigger] t[i]) is Some,
        rest.len() == 0 || axis_value(rest[0]) is None,
    ensures
        span_axes(t + rest) == t.len(),
    decreases t.len(),
{
    let s = t + rest;
    if t.len() == 0 {
        assert(s =~= rest);
    } else {
        assert(s[0] == t[0]);
        assert(s.skip(1) =~= t.skip(1) + rest);
        assert forall|i: int| 0 <= i < t.skip(1).len() implies axis_value(
            #[trigger] t.skip(1)[i],
        ) is Some by {
            assert(t.skip(1)[i] == t[i + 1]);
        }
        lemma_span_axes(t.skip(1), rest);
    }
}

/// The letters of the first `n` components in a mask.
pub open spec fn mask_front(m: u8, n: int) -> Seq<char>
    decreases n,
{
    if n <= 0 {
        Seq::empty()
    } else if mask_has(m, n - 1) {
        mask_front(m, n - 1).push(axis_char(n - 1))
    } else {
        mask_front(m, n - 1)
    }
}

pub proof fn lemma_mask(m: u8)
    requires
        m < 16,
    ensures
        mask_of(mask_text(m, 0)) == m,
        forall|i: int|
            0 <= i < mask_text(m, 0).len() ==> axis_value(#[trigger] mask_text(m, 0)[i]) is Some,
{
    reveal_with_fuel(mask_text, 5);
    reveal_with_fuel(mask_front, 5);
    assert(mask_text(m, 0) =~= mask_front(m, 4));
    let a0 = Seq::<char>::empty();
    let a1 = mask_front(m, 1);
    let a2 = mask_front(m, 2);
    let a3 = mask_front(m, 3);
    let a4 = mask_front(m, 4);
    assert(mask_of(a0) == 0);
    assert(a0.push('x').drop_last() =~= a0);
    assert(a1.push('y').drop_last() =~= a1);
    assert(a2.push('z').drop_last() =~= a2);
    assert(a3.push('w').drop_last() =~= a3);
    let b1 = if m & 1 != 0 {
        0u8 | 1
    } else {
        0u8
    };
    let b2 = if m & 2 != 0 {
        b1 | 2
    } else {
        b1
    };
    let b3 = if m & 4 != 0 {
        b2 | 4
    } else {
        b2
    };
    let b4 = if m & 8 != 0 {
        b3 | 8
    } else {
        b3
    };
    assert(mask_of(a1) == b1);
    assert(mask_of(a2) == b2);
    assert(mask_of(a3) == b3);
    assert(mask_of(a4) == b4);
    assert(b4 == m) by (bit_vector)
        requires
            m < 16,
            b1 == (if m & 1 != 0 {
                0u8 | 1
            } else {
                0u8
            }),
            b2 == (if m & 2 != 0 {
                b1 | 2
            } else {
                b1
            }),
            b3 == (if m & 4 != 0 {
                b2 | 4
            } else {
                b2
            }),
            b4 == (if m & 8 != 0 {
                b3 | 8
            } else {
                b3
            }),
    ;
}

/// Components read back.
proof fn lemma_components(c: ComponentSelect, rest: Seq<char>)
    requires
        valid_components(c),
        follows_components(rest),
    ensures
        read_components(components_text(c) + rest) == Ok::<
            (ComponentSelect, Seq<char>),
            Seq<char>,
        >((c, rest)),
{
    let t = components_text(c);
    let s = t + rest;
    match c {
        ComponentSelect::ZeroComponent => {
            assert(s =~= rest);
        },
        ComponentSelect::OneComponent => {
            reveal_strlit(".1");
            assert(s[0] == '.' && s[1] == '1');
            assert(s.skip(2) =~= rest);
        },
        ComponentSelect::Scalar(k) => {
            let x = seq![axis_char(k as int)];
            assert(s.skip(1) =~= x + rest);
            lemma_span_axes(x, rest);
            assert(s.skip(1).skip(1) =~= rest);
            assert(s[1] == axis_char(k as int));
        },
        ComponentSelect::Swizzle(v) => {
            let x = seq![
                axis_char(v[0] as int),
                axis_char(v[1] as int),
                axis_char(v[2] as int),
                axis_char(v[3] as int),
            ];
            assert(s.skip(1) =~= x + rest);
            lemma_span_axes(x, rest);
            assert(s.skip(1).skip(4) =~= rest);
            assert(s[1] == axis_char(v[0] as int));
            let y = s.skip(1);
            assert(y[0] == x[0] && y[1] == x[1] && y[2] == x[2] && y[3] == x[3]);
            assert([axis_or_zero(y[0]), axis_or_zero(y[1]), axis_or_zero(y[2]), axis_or_zero(y[3])]
                =~= v);
        },
        ComponentSelect::Mask(m) => {
            let x = mask_text(m, 0);
            lemma_mask(m);
            assert(s.skip(1) =~= x + rest);
            lemma_span_axes(x, rest);
            assert(s.skip(1).take(x.len() as int) =~= x);
            assert(s.skip(1).skip(x.len() as int) =~= rest);
        },
    }
}

// ---------------------------------------------------------------------------
// Indices and operands
// ---------------------------------------------------------------------------

/// Whether the text can follow an operand.
pub open spec fn follows_operand(rest: Seq<char>) -> bool {
    rest.len() == 0 || rest[0] == ',' || rest[0] == ' ' || rest[0] == ']'
}

/// Whether the text can follow the indices of an operand.
pub open spec fn follows_indices(rest: Seq<char>) -> bool {
    follows_components(rest) || rest[0] == ':' || rest[0] == '.'
}

/// A number as an index reads back.
proof fn lemma_number_index(ix: IndexModel, ft: Spellings, rest: Seq<char>)
    requires
        is_number(ix),
        rest.len() == 0 || (!is_digit(rest[0]) && rest[0] != 'L'),
    ensures
        at_digit(index_text(ix, ft) + rest),
        read_number_index(index_text(ix, ft) + rest) == Ok::<(IndexModel, Seq<char>), Seq<char>>(
            (ix, rest),
        ),
{
    match ix {
        IndexModel::Imm32(v) => {
            let d = dec_text(v as nat);
            lemma_number_text(v as nat, 10);
            number_reads_back(v as nat, 10, 0xffff_ffff);
            assert forall|i: int| 0 <= i < d.len() implies is_digit(#[trigger] d[i]) by {
                assert(is_lower_digit(d[i], 10));
            }
            lemma_span_digits_concat(d, rest);
            assert((d + rest)[0] == d[0]);
        },
        IndexModel::Imm64(v) => {
            let d = dec_text(v as nat);
            lemma_number_text(v as nat, 10);
            number_reads_back(v as nat, 10, 0xffff_ffff_ffff_ffff);
            assert forall|i: int| 0 <= i < d.len() implies is_digit(#[trigger] d[i]) by {
                assert(is_lower_digit(d[i], 10));
            }
            let tail = seq!['L'] + rest;
            assert(d.push('L') + rest =~= d + tail);
            lemma_span_digits_concat(d, tail);
            assert((d + tail)[0] == d[0]);
            assert(tail.skip(1) =~= rest);
        },
        _ => {},
    }
}

/// The first character of an operand is no digit, space or bracket, and an
/// operand is not a tag.
pub proof fn lemma_operand_start(op: OperandModel, ty: ImmediateType, ft: Spellings)
    requires
        valid_operand(op),
    ensures
        ({
            let t = operand_text(op, ty, ft);
            &&& t.len() > 0
            &&& !is_digit(t[0])
            &&& t[0] != ' '
            &&& t[0] != ','
            &&& t[0] != '+'
            &&& t[0] != '['
        }),
{
    let c = core_text(op, ty, ft);
    reveal_strlit("l(");
    reveal_strlit("d(");
    reveal_strlit("?reg(");
    if is_inline_immediate(op) {
        assert(c[0] == 'l' || c[0] == 'd');
    } else {
        match op.reg_type {
            RegisterType::Unknown(_) => {
                assert(c[0] == '?');
            },
            _ => {
                let v = op.reg_type.spec_to_u32();
                assert(RegisterType::spec_from_u32(v) == op.reg_type);
                lemma_register_prefix(v);
                reveal(is_register_prefix);
                let p = op.reg_type.prefix_text();
                assert(is_name_char(p[0]));
                assert(c[0] == p[0]);
            },
        }
    }
    let t = operand_text(op, ty, ft);
    if op.negate {
        assert(t[0] == '-');
    } else if op.abs {
        assert(t[0] == '|');
    } else {
        assert(t[0] == c[0]);
    }
}

/// The indices in brackets read back.
proof fn lemma_brackets(ix: Seq<IndexModel>, k: int, ft: Spellings, rest: Seq<char>)
    requires
        0 <= k <= ix.len(),
        valid_indices(ix, k),
        k > 0 || ix.len() == 0 || !is_number(ix[0]),
        follows_indices(rest),
    ensures
        read_brackets(indices_text(ix, k, ft) + rest, ft) == Ok::<
            (Seq<IndexModel>, Seq<char>),
            Seq<char>,
        >((ix.skip(k), rest)),
    decreases ix, ix.len() - k,
{
    let s = indices_text(ix, k, ft) + rest;
    if k >= ix.len() {
        assert(s =~= rest);
        assert(ix.skip(k) =~= Seq::empty());
    } else {
        let t = index_text(ix[k], ft);
        let more = indices_text(ix, k + 1, ft) + rest;
        let tail = seq![']'] + more;
        assert(s =~= seq!['['] + (t + tail));
        assert(s.skip(1) =~= t + tail);
        lemma_bracket_index(ix[k], ft, more);
        lemma_brackets(ix, k + 1, ft, rest);
        assert(tail.skip(1) =~= more);
        assert(ix.skip(k) =~= seq![ix[k]] + ix.skip(k + 1));
    }
}

/// One index between brackets reads back.
proof fn lemma_bracket_index(ix: IndexModel, ft: Spellings, more: Seq<char>)
    requires
        valid_index(ix),
    ensures
        read_bracket_index(index_text(ix, ft) + (seq![']'] + more), ft) == Ok::<
            (IndexModel, Seq<char>),
            Seq<char>,
        >((ix, seq![']'] + more)),
    decreases ix, 0int,
{
    let rest = seq![']'] + more;
    let s = index_text(ix, ft) + rest;
    match ix {
        IndexModel::Relative(op) => {
            let t = operand_text(*op, ImmediateType::Uint, ft);
            lemma_operand_start(*op, ImmediateType::Uint, ft);
            assert(s[0] == t[0]);
            lemma_operand(*op, ImmediateType::Uint, ft, rest);
            lemma_skip_space(rest);
        },
        IndexModel::RelativePlusImm(v, op) => {
            let t = operand_text(*op, ImmediateType::Uint, ft);
            let d = dec_text(v as nat);
            reveal_strlit(" + ");
            let a = d + rest;
            let b = seq!['+'] + (seq![' '] + a);
            let r = seq![' '] + b;
            assert(s =~= t + r);
            lemma_operand_start(*op, ImmediateType::Uint, ft);
            assert(s[0] == t[0]);
            lemma_operand(*op, ImmediateType::Uint, ft, r);
            lemma_skip_space(b);
            assert(b.skip(1) =~= seq![' '] + a);
            lemma_number_text(v as nat, 10);
            number_reads_back(v as nat, 10, 0xffff_ffff);
            assert(is_lower_digit(d[0], 10));
            assert(a[0] == d[0]);
            lemma_skip_space(a);
            assert forall|i: int| 0 <= i < d.len() implies #[trigger] d[i] != ']' by {
                assert(is_lower_digit(d[i], 10));
            }
            lemma_span_until_concat(d, rest, ']', ']', ']');
        },
        _ => {
            lemma_number_index(ix, ft, rest);
        },
    }
}

/// The indices behind a register prefix read back, and what stands there first
/// cannot belong to the prefix.
proof fn lemma_indices(ix: Seq<IndexModel>, ft: Spellings, rest: Seq<char>)
    requires
        valid_indices(ix, 0),
        follows_indices(rest),
    ensures
        read_indices(indices_text(ix, 0, ft) + rest, ft) == Ok::<
            (Seq<IndexModel>, Seq<char>),
            Seq<char>,
        >((ix, rest)),
        follows_prefix(indices_text(ix, 0, ft) + rest),
    decreases ix, ix.len() + 1,
{
    let s = indices_text(ix, 0, ft) + rest;
    if ix.len() > 0 && is_number(ix[0]) {
        let t = index_text(ix[0], ft);
        let more = indices_text(ix, 1, ft) + rest;
        assert(s =~= t + more);
        if ix.len() > 1 {
            assert(more[0] == '[');
        } else {
            assert(more =~= rest);
        }
        lemma_number_index(ix[0], ft, more);
        lemma_brackets(ix, 1, ft, rest);
        assert(ix =~= seq![ix[0]] + ix.skip(1));
    } else {
        lemma_brackets(ix, 0, ft, rest);
        assert(ix.skip(0) =~= ix);
        if ix.len() > 0 {
            assert(s[0] == '[');
        } else {
            assert(s =~= rest);
        }
    }
}

/// What an operand holds before its components reads back.
proof fn lemma_core(op: OperandModel, ty: ImmediateType, ft: Spellings, rest: Seq<char>)
    requires
        valid_operand(op),
        follows_indices(rest),
    ensures
        read_core(core_text(op, ty, ft) + rest, ft) == Ok::<(Core, Seq<char>), Seq<char>>(
            (
                Core {
                    reg_type: op.reg_type,
                    indices: op.indices,
                    immediate_values: op.immediate_values,
                },
                rest,
            ),
        ),
    decreases op, 2int,
{
    let s = core_text(op, ty, ft) + rest;
    reveal_strlit("l(");
    reveal_strlit("d(");
    reveal_strlit("?reg(");
    if is_inline_immediate(op) {
        let vals = op.immediate_values;
        assert(op.indices =~= Seq::empty());
        if op.reg_type == RegisterType::Immediate32 {
            assert(s =~= "l("@ + (imms_text(vals, 0, ty, ft) + (seq![')'] + rest)));
            assert(s.take(2) =~= "l("@);
            assert(s.skip(2) =~= imms_text(vals, 0, ty, ft) + (seq![')'] + rest));
            lemma_imm_list(vals, ty, ft, rest);
        } else {
            let u = ImmediateType::Uint;
            assert(s =~= "d("@ + (imms_text(vals, 0, u, ft) + (seq![')'] + rest)));
            assert(s.take(2) =~= "d("@);
            assert(s.skip(2) =~= imms_text(vals, 0, u, ft) + (seq![')'] + rest));
            assert(s[0] == 'd');
            if starts_with(s, "l("@) {
                assert(s.take(2)[0] == 'l');
            }
            lemma_imm_list(vals, u, ft, rest);
        }
    } else {
        let p = register_text(op.reg_type);
        let r = indices_text(op.indices, 0, ft) + rest;
        assert(s =~= p + r);
        lemma_indices(op.indices, ft, rest);
        lemma_read_register(op.reg_type, r);
        lemma_not_immediate(op, ft, rest);
        assert(op.immediate_values =~= Seq::empty());
    }
}

/// A register and its indices do not look like a list of immediate values.
proof fn lemma_not_immediate(op: OperandModel, ft: Spellings, rest: Seq<char>)
    requires
        valid_operand(op),
        !is_inline_immediate(op),
        follows_indices(rest),
    ensures
        ({
            let s = register_text(op.reg_type) + (indices_text(op.indices, 0, ft) + rest);
            &&& !starts_with(s, "l("@)
            &&& !starts_with(s, "d("@)
        }),
{
    reveal_strlit("l(");
    reveal_strlit("d(");
    reveal_strlit("?reg(");
    let p = register_text(op.reg_type);
    let r = indices_text(op.indices, 0, ft) + rest;
    let s = p + r;
    let bracket = s.len() >= 2 && s[1] == '(';
    if starts_with(s, "l("@) {
        assert(s.take(2)[1] == '(');
        assert(s.take(2)[0] == 'l');
    }
    if starts_with(s, "d("@) {
        assert(s.take(2)[1] == '(');
        assert(s.take(2)[0] == 'd');
    }
    match op.reg_type {
        RegisterType::Unknown(_) => {
            assert(s[0] == '?');
        },
        _ => {
            let v = op.reg_type.spec_to_u32();
            assert(RegisterType::spec_from_u32(v) == op.reg_type);
            lemma_register_prefix(v);
            reveal(is_register_prefix);
            assert(is_name_char(p[0]));
            if bracket {
                if p.len() >= 2 {
                    assert(s[1] == p[1]);
                    assert(is_name_char(p[1]));
                } else {
                    assert(s[1] == r[0]);
                    lemma_indices_start(op.indices, ft, rest);
                }
            }
        },
    }
}

proof fn lemma_indices_start(ix: Seq<IndexModel>, ft: Spellings, rest: Seq<char>)
    requires
        follows_indices(rest),
    ensures
        ({
            let r = indices_text(ix, 0, ft) + rest;
            r.len() > 0 ==> r[0] != '('
        }),
{
    let r = indices_text(ix, 0, ft) + rest;
    if ix.len() == 0 {
        assert(r =~= rest);
    } else if is_number(ix[0]) {
        let v = match ix[0] {
            IndexModel::Imm32(v) => v as nat,
            IndexModel::Imm64(v) => v as nat,
            _ => 0,
        };
        lemma_number_text(v, 10);
        let t = index_text(ix[0], ft);
        assert(is_lower_digit(dec_text(v)[0], 10));
        assert(t[0] == dec_text(v)[0]);
        assert(indices_text(ix, 0, ft) =~= t + indices_text(ix, 1, ft));
        assert(r[0] == t[0]);
    } else {
        assert(r[0] == '[');
    }
}

/// A sign, where there is one.
pub open spec fn mark(set: bool, c: char) -> Seq<char> {
    if set {
        seq![c]
    } else {
        Seq::empty()
    }
}

/// The components as they are written.
pub open spec fn written_components(op: OperandModel) -> Seq<char> {
    if components_implied(op) {
        Seq::empty()
    } else {
        components_text(op.components)
    }
}

/// A mark reads as one that is there, and is skipped.
proof fn lemma_mark(set: bool, c: char, rest: Seq<char>)
    requires
        rest.len() == 0 || rest[0] != c,
    ensures
        at_char(mark(set, c) + rest, c) == set,
        skip_char(mark(set, c) + rest, c) == rest,
{
    let s = mark(set, c) + rest;
    if set {
        assert(s.skip(1) =~= rest);
    } else {
        assert(s =~= rest);
    }
}

/// The text of an operand, cut into its parts.
proof fn lemma_operand_parts(op: OperandModel, ty: ImmediateType, ft: Spellings, rest: Seq<char>)
    ensures
        operand_text(op, ty, ft) + rest == mark(op.negate, '-') + (mark(op.abs, '|') + (core_text(
            op,
            ty,
            ft,
        ) + (written_components(op) + (mark(op.abs, '|') + rest)))),
{
    let a = mark(op.negate, '-');
    let b = mark(op.abs, '|');
    let c = core_text(op, ty, ft);
    let d = written_components(op);
    assert(operand_text(op, ty, ft) == a + (b + (c + (d + b))));
    assert((d + b) + rest =~= d + (b + rest));
    assert((c + (d + b)) + rest =~= c + (d + (b + rest)));
    assert((b + (c + (d + b))) + rest =~= b + (c + (d + (b + rest))));
    assert((a + (b + (c + (d + b)))) + rest =~= a + (b + (c + (d + (b + rest)))));
}

/// The components read back, those that are not written being implied.
proof fn lemma_written_components(op: OperandModel, rest: Seq<char>)
    requires
        valid_operand(op),
        follows_components(rest),
    ensures
        ({
            let c = if components_implied(op) {
                ComponentSelect::ZeroComponent
            } else {
                op.components
            };
            read_components(written_components(op) + rest) == Ok::<
                (ComponentSelect, Seq<char>),
                Seq<char>,
            >((c, rest))
        }),
        follows_indices(written_components(op) + rest),
{
    let d = written_components(op);
    if components_implied(op) {
        lemma_components(ComponentSelect::ZeroComponent, rest);
        assert(d =~= components_text(ComponentSelect::ZeroComponent));
        assert(d + rest =~= rest);
    } else {
        lemma_components(op.components, rest);
        reveal_strlit(".1");
        if d.len() > 0 {
            assert((d + rest)[0] == d[0]);
        } else {
            assert(d + rest =~= rest);
        }
    }
}

/// An operand reads back as it was written, and what follows it is left.
pub proof fn lemma_operand(op: OperandModel, ty: ImmediateType, ft: Spellings, rest: Seq<char>)
    requires
        valid_operand(op),
        follows_operand(rest),
    ensures
        read_operand(operand_text(op, ty, ft) + rest, ft) == Ok::<
            (OperandModel, Seq<char>),
            Seq<char>,
        >((op, rest)),
    decreases op, 3int,
{
    let core = core_text(op, ty, ft);
    let s4 = mark(op.abs, '|') + rest;
    let s3 = written_components(op) + s4;
    let s2 = core + s3;
    let s1 = mark(op.abs, '|') + s2;
    lemma_operand_parts(op, ty, ft, rest);
    lemma_mark(op.abs, '|', rest);
    assert(follows_components(s4)) by {
        if op.abs {
            assert(s4[0] == '|');
        } else {
            assert(s4 =~= rest);
        }
    }
    lemma_written_components(op, s4);
    lemma_core(op, ty, ft, s3);
    lemma_core_start(op, ty, ft);
    assert(s2[0] == core[0]);
    lemma_mark(op.abs, '|', s2);
    assert(s1[0] != '-') by {
        if op.abs {
            assert(s1[0] == '|');
        } else {
            assert(s1 =~= s2);
        }
    }
    lemma_mark(op.negate, '-', s1);
    assert(op.abs ==> s4.skip(1) == rest);
    assert(!op.abs ==> s4 == rest) by {
        assert(!op.abs ==> s4 =~= rest);
    }
}

/// The first character of an operand's core is neither a sign nor a bar.
proof fn lemma_core_start(op: OperandModel, ty: ImmediateType, ft: Spellings)
    requires
        valid_operand(op),
    ensures
        core_text(op, ty, ft).len() > 0,
        core_text(op, ty, ft)[0] != '-',
        core_text(op, ty, ft)[0] != '|',
{
    let c = core_text(op, ty, ft);
    reveal_strlit("l(");
    reveal_strlit("d(");
    reveal_strlit("?reg(");
    if is_inline_immediate(op) {
        assert(c[0] == 'l' || c[0] == 'd');
    } else {
        match op.reg_type {
            RegisterType::Unknown(_) => {
                assert(c[0] == '?');
            },
            _ => {
                let v = op.reg_type.spec_to_u32();
                assert(RegisterType::spec_from_u32(v) == op.reg_type);
                lemma_register_prefix(v);
                reveal(is_register_prefix);
                let p = op.reg_type.prefix_text();
                assert(is_name_char(p[0]));
                assert(c[0] == p[0]);
            },
        }
    }
}

/// What stands behind a register prefix cannot belong to it.
proof fn lemma_follows_prefix(op: OperandModel, ft: Spellings, rest: Seq<char>)
    requires
        follows_indices(rest),
    ensures
        follows_prefix(indices_text(op.indices, 0, ft) + rest),
{
    let ix = op.indices;
    let r = indices_text(ix, 0, ft) + rest;
    if ix.len() == 0 {
        assert(r =~= rest);
    } else if is_number(ix[0]) {
        let v = match ix[0] {
            IndexModel::Imm32(v) => v as nat,
            IndexModel::Imm64(v) => v as nat,
            _ => 0,
        };
        lemma_number_text(v, 10);
        let t = index_text(ix[0], ft);
        assert(is_lower_digit(dec_text(v)[0], 10));
        assert(t[0] == dec_text(v)[0]);
        assert(indices_text(ix, 0, ft) =~= t + indices_text(ix, 1, ft));
        assert(r[0] == t[0]);
    } else {
        assert(r[0] == '[');
    }
}

/// A register and what follows it do not begin with `sv` or `interp`.
proof fn lemma_prefix_no_tag(p: Seq<char>, r: Seq<char>)
    requires
        is_register_prefix(p),
        follows_prefix(r),
    ensures
        !starts_with(p + r, "sv"@),
        !starts_with(p + r, "interp"@),
{
    reveal(is_register_prefix);
    reveal_strlit("sv");
    reveal_strlit("interp");
    let s = p + r;
    if starts_with(s, "sv"@) {
        assert(s.take(2)[0] == 's' && s.take(2)[1] == 'v');
        assert(s[0] == p[0]);
        if p.len() >= 2 {
            assert(s[1] == p[1]);
        } else {
            assert(s[1] == r[0]);
        }
    }
    if starts_with(s, "interp"@) {
        let w = "interp"@;
        assert forall|i: int| 0 <= i < 6 implies #[trigger] s[i] == w[i] by {
            assert(s.take(6)[i] == s[i]);
        }
        assert(s[0] == 'i' && s[5] == 'p');
        assert(s[0] == p[0]);
        if p.len() >= 6 {
            assert(s[5] == p[5]);
        } else {
            let n = p.len() as int;
            assert(s[n] == r[0]);
            assert(s[n] == w[n]);
            assert(is_name_char(w[n]));
        }
    }
}

/// An operand does not begin like the tags of an input or output.
pub proof fn lemma_operand_no_tag(op: OperandModel, ft: Spellings, rest: Seq<char>)
    requires
        valid_operand(op),
        follows_operand(rest),
    ensures
        ({
            let s = operand_text(op, ImmediateType::Uint, ft) + rest;
            &&& !starts_with(s, "sv"@)
            &&& !starts_with(s, "interp"@)
        }),
{
    let ty = ImmediateType::Uint;
    let s4 = mark(op.abs, '|') + rest;
    let s3 = written_components(op) + s4;
    let core = core_text(op, ty, ft);
    let s = operand_text(op, ty, ft) + rest;
    lemma_operand_parts(op, ty, ft, rest);
    reveal_strlit("sv");
    reveal_strlit("interp");
    if starts_with(s, "sv"@) {
        assert(s.take(2)[0] == 's');
    }
    if starts_with(s, "interp"@) {
        assert(s.take(6)[0] == 'i');
    }
    if op.negate {
        assert(s[0] == '-');
    } else if op.abs {
        assert(s[0] == '|');
    } else {
        assert(s =~= core + s3);
        assert(s4 =~= rest);
        lemma_written_components(op, s4);
        reveal_strlit("l(");
        reveal_strlit("d(");
        reveal_strlit("?reg(");
        if is_inline_immediate(op) {
            assert(core[0] == 'l' || core[0] == 'd');
            assert(s[0] == core[0]);
        } else {
            let p = register_text(op.reg_type);
            let r = indices_text(op.indices, 0, ft) + s3;
            assert(s =~= p + r);
            match op.reg_type {
                RegisterType::Unknown(_) => {
                    assert(s[0] == '?');
                },
                _ => {
                    lemma_register_number(op.reg_type);
                    lemma_register_prefix(op.reg_type.spec_to_u32());
                    lemma_follows_prefix(op, ft, s3);
                    lemma_prefix_no_tag(p, r);
                },
            }
        }
    }
}

} // verus!
