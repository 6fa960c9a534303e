//! Types and default values in the HLSL form read back.

use vstd::bytes::{lemma_auto_spec_u32_to_from_le_bytes, spec_u32_to_le_bytes};
use vstd::prelude::*;

use crate::bytes::{read_at, word_at, word_bytes};
use crate::checksum::zeros;
use crate::chunks::rdef::TypeModel;
use crate::floats::{Spellings, is_float_char};
use crate::grammar::rdef::hlsl::{
    TypeShape, array_suffix, base_names, base_prefix, component_count, default_text,
    hlsl_type_text, literals, padding_is_zero, read_default, read_name, read_scalar, read_scalars,
    read_shape, scalar_text,
};
use crate::grammar::shex::text::signed_value;
use crate::grammar::tables::table_name;
use crate::lines::{lemma_split_once_concat, lemma_trim_trimmed, split, split_once, trim};
use crate::numerals::{
    dec_text, int_reads_back, lemma_number_lacks, lemma_number_text, number_reads_back,
};
use crate::roundtrip::annotations::lemma_split_last;
use crate::roundtrip::clean::{
    inked, is_plain_char, lemma_inked_concat, lemma_int_inked, lemma_number_inked,
};
use crate::roundtrip::modifiers::lemma_split_one;
use crate::roundtrip::programs::lemma_not_contains;
use crate::roundtrip::tables::{lemma_number_name, lemma_table_entry};
use crate::text::{is_white, lacks, lemma_lacks_concat, lemma_span_until_concat, starts_with};

verus! {

/// Ink is not white.
proof fn lemma_inked_trim(s: Seq<char>)
    requires
        inked(s),
        s.len() > 0,
    ensures
        trim(s) == s,
{
    assert(is_plain_char(s[0]));
    assert(is_plain_char(s[s.len() - 1]));
    lemma_trim_trimmed(s);
}

/// A scalar as a literal reads back, and holds neither commas nor white space.
proof fn lemma_scalar(var_type: u16, w: u32, ft: Spellings)
    requires
        scalar_text(var_type, w, ft) is Some,
    ensures
        read_scalar(var_type, trim(scalar_text(var_type, w, ft)->0), ft) == Some(w),
        inked(scalar_text(var_type, w, ft)->0),
        lacks(scalar_text(var_type, w, ft)->0, ','),
{
    let s = scalar_text(var_type, w, ft)->0;
    if var_type == 3 {
        reveal_strlit("NaN");
        assert forall|i: int| 0 <= i < s.len() implies is_plain_char(#[trigger] s[i]) && s[i] != ' '
            && s[i] != ',' by {
            assert(is_float_char(s[i]) || s == "NaN"@);
        }
        lemma_inked_trim(s);
    } else if var_type == 2 {
        let i = signed_value(w);
        lemma_int_inked(i);
        lemma_inked_trim(s);
        int_reads_back(i, 0x7fff_ffff);
        let n = (if i < 0 {
            -i
        } else {
            i
        }) as nat;
        lemma_number_lacks(n, 10, ',');
        if i < 0 {
            lemma_lacks_concat(seq!['-'], dec_text(n), ',');
        }
    } else if var_type == 19 {
        lemma_number_inked(w as nat);
        lemma_inked_trim(s);
        number_reads_back(w as nat, 10, 0xffff_ffff);
        lemma_number_lacks(w as nat, 10, ',');
    } else {
        reveal_strlit("false");
        assert(inked(s));
        lemma_inked_trim(s);
    }
}

/// The literals one by one.
pub open spec fn literal_list(
    var_type: u16,
    b: Seq<u8>,
    stride: int,
    n: nat,
    ft: Spellings,
) -> Seq<Seq<char>> {
    Seq::new(n, |i: int| scalar_text(var_type, word_at(b, i * stride), ft)->0)
}

/// Literals are taken apart at the commas.
proof fn lemma_literals(var_type: u16, b: Seq<u8>, stride: int, n: int, ft: Spellings)
    requires
        n >= 1,
        literals(var_type, b, stride, n, ft) is Some,
    ensures
        split(literals(var_type, b, stride, n, ft)->0, ',') == literal_list(
            var_type,
            b,
            stride,
            n as nat,
            ft,
        ),
        forall|i: int|
            #![trigger word_at(b, i * stride)]
            0 <= i < n ==> read_at(b, i * stride) is Some && scalar_text(
                var_type,
                word_at(b, i * stride),
                ft,
            ) is Some,
    decreases n,
{
    let all = literal_list(var_type, b, stride, n as nat, ft);
    let w = word_at(b, (n - 1) * stride);
    let s = scalar_text(var_type, w, ft)->0;
    lemma_scalar(var_type, w, ft);
    if n == 1 {
        reveal_with_fuel(literals, 2);
        assert(Seq::<char>::empty() + s =~= s);
        lemma_split_one(s, ',');
        assert(all =~= seq![s]);
    } else {
        lemma_literals(var_type, b, stride, n - 1, ft);
        let before = literals(var_type, b, stride, n - 1, ft)->0;
        assert(before.push(',') + s =~= before + seq![','] + s);
        lemma_split_last(before, ',', s);
        assert(all =~= literal_list(var_type, b, stride, (n - 1) as nat, ft).push(s));
    }
    assert forall|i: int| #![trigger word_at(b, i * stride)] 0 <= i < n implies read_at(
        b,
        i * stride,
    ) is Some && scalar_text(var_type, word_at(b, i * stride), ft) is Some by {
        if i == n - 1 {
        }
    }
}

/// The bytes of a word that was read.
proof fn lemma_word_back(b: Seq<u8>, p: int)
    requires
        0 <= p,
        p + 4 <= b.len(),
    ensures
        word_bytes(word_at(b, p)) == b.subrange(p, p + 4),
{
    lemma_auto_spec_u32_to_from_le_bytes();
    let s = b.subrange(p, p + 4);
    assert(s.len() == 4);
    assert(spec_u32_to_le_bytes(word_at(b, p)) == s);
}

/// The bytes of the first `n` scalars.
proof fn lemma_scalars(
    var_type: u16,
    b: Seq<u8>,
    gap: nat,
    total: nat,
    n: int,
    ft: Spellings,
)
    requires
        0 <= n <= total,
        total >= 1,
        b.len() == (total - 1) * (4 + gap) + 4,
        forall|i: int|
            #![trigger word_at(b, i * (4 + gap))]
            0 <= i < total ==> read_at(b, i * (4 + gap)) is Some && scalar_text(
                var_type,
                word_at(b, i * (4 + gap)),
                ft,
            ) is Some,
        forall|e: int, k: int|
            0 <= e < total - 1 && 4 <= k < 4 + gap ==> #[trigger] b[e * (4 + gap) + k] == 0,
    ensures
        read_scalars(
            var_type,
            literal_list(var_type, b, (4 + gap) as int, total, ft),
            gap,
            n,
            ft,
        ) == Some(
            b.take(
                if n < total {
                    n * (4 + gap)
                } else {
                    b.len() as int
                },
            ),
        ),
    decreases n,
{
    let d = 4 + gap;
    let parts = literal_list(var_type, b, d as int, total, ft);
    if n == 0 {
        assert(b.take(0) =~= Seq::empty());
        assert(0 * d == 0) by (nonlinear_arith);
    } else {
        lemma_scalars(var_type, b, gap, total, n - 1, ft);
        let p = (n - 1) * d;
        let w = word_at(b, p);
        assert(0 <= p && p + 4 <= b.len()) by (nonlinear_arith)
            requires
                p == (n - 1) * d,
                1 <= n <= total,
                d >= 4,
                b.len() == (total - 1) * d + 4,
        ;
        assert(read_at(b, (n - 1) * (4 + gap)) is Some);
        lemma_scalar(var_type, w, ft);
        lemma_word_back(b, p);
        assert(parts[n - 1] == scalar_text(var_type, w, ft)->0);
        if n < total {
            assert(n * d == p + d && p + d <= b.len()) by (nonlinear_arith)
                requires
                    p == (n - 1) * d,
                    1 <= n < total,
                    d >= 4,
                    b.len() == (total - 1) * d + 4,
            ;
            assert(b.take(p) + b.subrange(p, p + 4) + zeros(gap) =~= b.take(p + d)) by {
                assert forall|i: int| p + 4 <= i < p + d implies #[trigger] b[i] == 0 by {
                    assert(b[(n - 1) * (4 + gap) + (i - p)] == 0);
                }
            }
        } else {
            assert(b.take(p) + b.subrange(p, p + 4) + Seq::<u8>::empty() =~= b.take(
                b.len() as int,
            ));
        }
    }
}

// ---------------------------------------------------------------------------
// Types
// ---------------------------------------------------------------------------

/// The spelling of a type without its array length.
pub open spec fn stem_text(t: TypeModel) -> Seq<char> {
    table_name(base_names(), t.var_type as u32)->0 + size_text(t)
}

/// What stands behind the base name.
pub open spec fn size_text(t: TypeModel) -> Seq<char> {
    if t.class == 0 {
        Seq::empty()
    } else if t.class == 1 {
        dec_text(t.columns as nat)
    } else {
        dec_text(t.rows as nat) + seq!['x'] + dec_text(t.columns as nat)
    }
}

/// A base name is found at the beginning of a spelling.
proof fn lemma_base(v: u32, more: Seq<char>)
    requires
        table_name(base_names(), v) is Some,
    ensures
        inked(table_name(base_names(), v)->0),
        lacks(table_name(base_names(), v)->0, '('),
        lacks(table_name(base_names(), v)->0, '['),
        base_prefix(table_name(base_names(), v)->0 + more, 5) == Some(
            (table_name(base_names(), v)->0.len(), v),
        ),
{
    reveal_strlit("bool");
    reveal_strlit("int");
    reveal_strlit("float");
    reveal_strlit("uint");
    reveal_strlit("double");
    reveal_with_fuel(base_prefix, 6);
    reveal_with_fuel(table_name, 6);
    let t = base_names();
    let s = table_name(t, v)->0;
    let all = s + more;
    assert(all.take(s.len() as int) =~= s);
    assert("bool"@[0] == 'b' && "int"@[0] == 'i' && "float"@[0] == 'f' && "uint"@[0] == 'u'
        && "double"@[0] == 'd');
    assert(t[0].0 == "bool"@ && t[1].0 == "int"@ && t[2].0 == "float"@ && t[3].0 == "uint"@
        && t[4].0 == "double"@);
    assert forall|k: int| 0 <= k < 5 && #[trigger] starts_with(all, t[k].0) implies t[k].0[0]
        == all[0] by {
        assert(all.take(t[k].0.len() as int)[0] == all[0]);
    }
    lemma_table_entry(t, v);
    let i = choose|i: int| 0 <= i < t.len() && #[trigger] t[i].0 == s;
    lemma_number_name(t, i);
    if i == 0 {
        assert(s == "bool"@);
    } else if i == 1 {
        assert(s == "int"@);
    } else if i == 2 {
        assert(s == "float"@);
    } else if i == 3 {
        assert(s == "uint"@);
    } else {
        assert(s == "double"@);
    }
}

/// The spelling of a type, in its parts.
pub proof fn lemma_type_text(t: TypeModel)
    requires
        hlsl_type_text(t) is Some,
    ensures
        hlsl_type_text(t)->0 == stem_text(t) + array_suffix(t.elements),
        lacks(stem_text(t), '('),
        lacks(stem_text(t), '['),
{
    let b = table_name(base_names(), t.var_type as u32)->0;
    lemma_base(t.var_type as u32, size_text(t));
    reveal_strlit("x");
    let r = dec_text(t.rows as nat);
    let c = dec_text(t.columns as nat);
    let a = array_suffix(t.elements);
    lemma_number_lacks(t.rows as nat, 10, '(');
    lemma_number_lacks(t.columns as nat, 10, '(');
    lemma_number_lacks(t.rows as nat, 10, '[');
    lemma_number_lacks(t.columns as nat, 10, '[');
    lemma_lacks_concat(r, seq!['x'], '(');
    lemma_lacks_concat(r + seq!['x'], c, '(');
    lemma_lacks_concat(r, seq!['x'], '[');
    lemma_lacks_concat(r + seq!['x'], c, '[');
    lemma_lacks_concat(b, size_text(t), '(');
    lemma_lacks_concat(b, size_text(t), '[');
    if t.class == 0 {
        assert(b + a =~= b + Seq::<char>::empty() + a);
    } else if t.class == 1 {
        assert(b + c + a =~= b + c + a);
    } else {
        assert("x"@ =~= seq!['x']);
        assert(b + r + "x"@ + c + a =~= b + (r + seq!['x'] + c) + a);
    }
}

/// The shape that the spelling of a type tells: rows of a scalar or vector are one,
/// and of a matrix it does not tell how it is laid out.
pub open spec fn told_shape(t: TypeModel) -> TypeShape {
    TypeShape {
        class: if t.class == 2 {
            3
        } else {
            t.class
        },
        base: t.var_type,
        rows: if t.class < 2 {
            1
        } else {
            t.rows
        },
        cols: if t.class == 0 {
            1
        } else {
            t.columns
        },
    }
}

/// The stem of a spelling reads back as the shape.
proof fn lemma_stem(t: TypeModel)
    requires
        hlsl_type_text(t) is Some,
    ensures
        read_shape(stem_text(t)) == Some(told_shape(t)),
{
    let v = t.var_type as u32;
    let b = table_name(base_names(), v)->0;
    let m = size_text(t);
    lemma_base(v, m);
    let s = stem_text(t);
    assert(s.skip(b.len() as int) =~= m);
    let r = dec_text(t.rows as nat);
    let c = dec_text(t.columns as nat);
    number_reads_back(t.rows as nat, 10, 0xffff);
    number_reads_back(t.columns as nat, 10, 0xffff);
    lemma_number_text(t.columns as nat, 10);
    lemma_number_lacks(t.rows as nat, 10, 'x');
    lemma_number_lacks(t.columns as nat, 10, 'x');
    lemma_not_contains(r, 'x');
    lemma_split_once_concat(r, 'x', c);
    lemma_split_once_none(c, 'x');
}

/// The spelling of a scalar, vector or matrix type reads back as its shape and its
/// array length.
pub proof fn type_spelling_reads_back(t: TypeModel)
    requires
        hlsl_type_text(t) is Some,
    ensures
        read_name(hlsl_type_text(t)->0) == Some((stem_text(t), t.elements)),
        read_shape(stem_text(t)) == Some(told_shape(t)),
{
    lemma_type_text(t);
    lemma_stem(t);
    lemma_array_name(stem_text(t), t.elements);
}

/// A name and an array length behind it.
proof fn lemma_array_name(s: Seq<char>, elements: u16)
    requires
        lacks(s, '['),
    ensures
        read_name(s + array_suffix(elements)) == Some((s, elements)),
{
    lemma_split_once_none(s, '[');
    if elements > 0 {
        let d = dec_text(elements as nat);
        reveal_strlit("[");
        reveal_strlit("]");
        number_reads_back(elements as nat, 10, 0xffff);
        assert(s + ("["@ + d + "]"@) =~= s + seq!['['] + d.push(']'));
        lemma_not_contains(s, '[');
        lemma_split_once_concat(s, '[', d.push(']'));
        assert(d.push(']').drop_last() =~= d);
    } else {
        assert(s + Seq::<char>::empty() =~= s);
    }
}

/// A text without the separator is not split.
pub proof fn lemma_split_once_none(s: Seq<char>, sep: char)
    requires
        lacks(s, sep),
    ensures
        split_once(s, sep) is None,
{
    let e = Seq::<char>::empty();
    assert(s + e =~= s);
    lemma_span_until_concat(s, e, sep, sep, sep);
}

// ---------------------------------------------------------------------------
// Whole values
// ---------------------------------------------------------------------------

/// Literals hold no white space.
proof fn lemma_literals_inked(var_type: u16, b: Seq<u8>, stride: int, n: int, ft: Spellings)
    requires
        literals(var_type, b, stride, n, ft) is Some,
    ensures
        inked(literals(var_type, b, stride, n, ft)->0),
    decreases n,
{
    broadcast use lemma_inked_concat;

    if n > 0 {
        lemma_literals_inked(var_type, b, stride, n - 1, ft);
        let before = literals(var_type, b, stride, n - 1, ft)->0;
        let w = read_at(b, (n - 1) * stride)->0;
        lemma_scalar(var_type, w, ft);
        assert(before.push(',') =~= before + seq![',']);
        assert(inked(seq![',']));
    }
}

/// The spelling of a type holds no white space.
proof fn lemma_type_inked(t: TypeModel)
    requires
        hlsl_type_text(t) is Some,
        t.elements == 0,
    ensures
        inked(hlsl_type_text(t)->0),
{
    broadcast use lemma_inked_concat;

    lemma_type_text(t);
    lemma_base(t.var_type as u32, size_text(t));
    lemma_number_inked(t.rows as nat);
    lemma_number_inked(t.columns as nat);
    assert(inked(seq!['x']));
    assert(inked(Seq::<char>::empty()));
}

/// The text of a default value holds no white space.
proof fn lemma_default_inked(t: TypeModel, b: Seq<u8>, ft: Spellings)
    requires
        default_text(t, b, ft) is Some,
    ensures
        inked(default_text(t, b, ft)->0),
{
    broadcast use lemma_inked_concat;

    reveal_strlit("(");
    reveal_strlit(")");
    reveal_strlit("{");
    reveal_strlit("}");
    assert(inked("("@) && inked(")"@) && inked("{"@) && inked("}"@));
    if t.elements == 0 {
        let n = component_count(t)->0 as int;
        lemma_literals_inked(t.var_type, b, 4, n, ft);
        if n != 1 {
            lemma_type_inked(t);
        }
    } else {
        lemma_literals_inked(t.var_type, b, 16, t.elements as int, ft);
    }
}

/// A default value written as an initializer reads back as the same bytes, and its
/// text holds no white space.
pub proof fn default_reads_back(t: TypeModel, b: Seq<u8>, ft: Spellings)
    requires
        default_text(t, b, ft) is Some,
    ensures
        read_default(t, default_text(t, b, ft)->0, ft) == Some(b),
        forall|i: int|
            0 <= i < default_text(t, b, ft)->0.len() ==> !is_white(
                #[trigger] default_text(t, b, ft)->0[i],
            ),
{
    lemma_default_inked(t, b, ft);
    assert forall|i: int| 0 <= i < default_text(t, b, ft)->0.len() implies !is_white(
        #[trigger] default_text(t, b, ft)->0[i],
    ) by {
        assert(is_plain_char(default_text(t, b, ft)->0[i]));
    }
    let s = default_text(t, b, ft)->0;
    assert(b.take(b.len() as int) =~= b);
    if t.elements == 0 {
        let n = component_count(t)->0;
        let ls = literals(t.var_type, b, 4, n as int, ft)->0;
        lemma_literals(t.var_type, b, 4, n as int, ft);
        lemma_scalars(t.var_type, b, 0, n, n as int, ft);
        let parts = literal_list(t.var_type, b, 4, n, ft);
        if n == 1 {
            let w = word_at(b, 0int * 4);
            assert(read_at(b, 0int * 4) is Some);
            reveal_with_fuel(literals, 2);
            let one = scalar_text(t.var_type, w, ft)->0;
            assert(Seq::<char>::empty() + one =~= one);
            assert(seq![s] =~= parts);
        } else {
            let name = hlsl_type_text(t)->0;
            lemma_type_text(t);
            assert(name =~= stem_text(t));
            lemma_not_contains(name, '(');
            reveal_strlit("(");
            reveal_strlit(")");
            assert(s =~= name + seq!['('] + ls.push(')'));
            lemma_split_once_concat(name, '(', ls.push(')'));
            assert(ls.push(')').drop_last() =~= ls);
        }
    } else {
        let n = t.elements as nat;
        let ls = literals(t.var_type, b, 16, n as int, ft)->0;
        lemma_literals(t.var_type, b, 16, n as int, ft);
        assert forall|e: int, k: int| 0 <= e < n - 1 && 4 <= k < 4 + 12 implies #[trigger] b[e * (4
            + 12) + k] == 0 by {
            assert(padding_is_zero(b, t.elements - 1));
            assert(b[e * 16 + k] == 0);
        }
        lemma_scalars(t.var_type, b, 12, n, n as int, ft);
        reveal_strlit("{");
        reveal_strlit("}");
        assert(s.skip(1) =~= ls.push('}'));
        assert(s.take(1) =~= "{"@);
        assert(ls.push('}').drop_last() =~= ls);
    }
}

} // verus!
