//! What the HLSL form of resource definitions is made of: sizes, type
//! spellings, default values, pack offsets and flags.

use vstd::prelude::*;

use crate::bytes::{get_u32, push_u32, read_at, word_bytes};
use crate::checksum::zeros;
use crate::chunks::rdef::{
    MemberDesc, MemberModel, TypeDesc, TypeModel, flag_names, flag_names_text, lemma_type_model,
    member_models,
};
use crate::floats::{FloatTable, Spellings, bits_of_text, plainly_spelled};
use crate::grammar::rdef::kv::{word_in, word_of};
use crate::grammar::shex::reading::word_of_int;
use crate::grammar::shex::text::signed_value;
use crate::grammar::tables::{NameTable, name_of, table_name, table_of, table_value, value_of};
use crate::lines::{split, split_at_first, split_chars, split_once, trim, trimmed, views};
use crate::numerals::{
    dec_text, hex_text, int_text, parse_int, parse_nat, parse_signed, parse_unsigned, push_dec,
    push_hex, push_int,
};
use crate::text::{
    is_text, push_chars, push_text, skip, strip_last, strip_last_char, strip_prefix, strip_text,
};

verus! {

// ---------------------------------------------------------------------------
// Sizes
// ---------------------------------------------------------------------------

/// The size in bytes of a base type.
pub open spec fn base_size(var_type: u16) -> nat {
    if var_type == 39 {
        8
    } else {
        4
    }
}

/// The size of one element of a type that is no struct.
pub open spec fn element_size(t: TypeModel) -> Option<nat> {
    if t.members.len() > 0 {
        None
    } else if t.class == 0 {
        Some(base_size(t.var_type))
    } else if t.class == 1 {
        Some(base_size(t.var_type) * t.columns as nat)
    } else if t.class == 2 || t.class == 3 {
        Some(base_size(t.var_type) * t.rows as nat * t.columns as nat)
    } else {
        None
    }
}

/// The size of a type that is neither a struct nor an array.
pub open spec fn natural_size(t: TypeModel) -> Option<nat> {
    if t.elements != 0 {
        None
    } else {
        element_size(t)
    }
}

/// The same, nought where there is none.
pub open spec fn natural_or_zero(t: TypeModel) -> nat {
    match natural_size(t) {
        Some(s) => s,
        None => 0,
    }
}

/// The end of the last of the first `n` members of a natural size.
pub open spec fn members_end(ms: Seq<MemberModel>, n: int) -> nat
    decreases n,
{
    if n <= 0 {
        0
    } else {
        let before = members_end(ms, n - 1);
        match natural_size(ms[n - 1].member_type) {
            Some(s) if ms[n - 1].offset + s > before => (ms[n - 1].offset + s) as nat,
            _ => before,
        }
    }
}

/// The size of a struct of those members.
pub open spec fn struct_size(ms: Seq<MemberModel>) -> nat {
    members_end(ms, ms.len() as int)
}

/// The size of a type: that of a struct, or its natural size.
pub open spec fn type_size(t: TypeModel) -> nat {
    if t.members.len() == 0 {
        natural_or_zero(t)
    } else {
        struct_size(t.members)
    }
}

/// `n` rounded up to a multiple of sixteen.
pub open spec fn round16(n: nat) -> nat {
    ((n + 15) / 16) * 16
}

/// The size of a variable of the type in a constant buffer: every element of an
/// array but the last fills up whole registers.
pub open spec fn derived_var_size(t: TypeModel) -> Option<nat> {
    match element_size(t) {
        None => None,
        Some(e) => if t.elements == 0 {
            Some(e)
        } else {
            Some(((t.elements - 1) * round16(e) + e) as nat)
        },
    }
}

/// The number of scalars in a type that is neither a struct nor an array.
pub open spec fn component_count(t: TypeModel) -> Option<nat> {
    if t.elements != 0 || t.members.len() > 0 {
        None
    } else if t.class == 0 {
        Some(1)
    } else if t.class == 1 {
        Some(t.columns as nat)
    } else if t.class == 2 || t.class == 3 {
        Some(t.rows as nat * t.columns as nat)
    } else {
        None
    }
}

/// The size of one element.
pub fn element_size_of(t: &TypeDesc) -> (r: Option<u64>)
    ensures
        match r {
            Some(s) => element_size(t.model()) == Some(s as nat) && s < 0x10_0000_0000,
            None => element_size(t.model()) is None,
        },
{
    proof {
        lemma_type_model(*t);
    }
    if t.members.len() > 0 {
        return None;
    }
    let b: u64 = if t.var_type == 39 { 8 } else { 4 };
    let rows: u64 = t.rows as u64;
    let cols: u64 = t.columns as u64;
    assert(b * cols <= 8 * 0xffff) by (nonlinear_arith)
        requires
            b <= 8,
            cols <= 0xffff,
    ;
    assert(b * rows <= 8 * 0xffff) by (nonlinear_arith)
        requires
            b <= 8,
            rows <= 0xffff,
    ;
    assert(b * rows * cols <= 8 * 0xffff * 0xffff) by (nonlinear_arith)
        requires
            b * rows <= 8 * 0xffff,
            cols <= 0xffff,
    ;
    match t.class {
        0 => Some(b),
        1 => Some(b * cols),
        2 => Some(b * rows * cols),
        3 => Some(b * rows * cols),
        _ => None,
    }
}

/// The size of a type that is neither a struct nor an array.
pub fn natural_size_of(t: &TypeDesc) -> (r: Option<u64>)
    ensures
        match r {
            Some(s) => natural_size(t.model()) == Some(s as nat) && s < 0x10_0000_0000,
            None => natural_size(t.model()) is None,
        },
{
    if t.elements != 0 {
        None
    } else {
        element_size_of(t)
    }
}

/// The size of a struct of those members.
pub fn struct_size_of(members: &Vec<MemberDesc>) -> (r: u64)
    ensures
        r == struct_size(member_models(members@)),
        r < 0x20_0000_0000,
{
    let ghost ms = member_models(members@);
    let mut end: u64 = 0;
    let mut i: usize = 0;
    while i < members.len()
        invariant
            ms == member_models(members@),
            i <= members.len(),
            end == members_end(ms, i as int),
            end < 0x20_0000_0000,
        decreases members.len() - i,
    {
        assert(ms[i as int] == members@[i as int].model());
        match natural_size_of(&members[i].member_type) {
            Some(s) => {
                let e: u64 = members[i].offset as u64 + s;
                if e > end {
                    end = e;
                }
            },
            None => {},
        }
        i += 1;
    }
    end
}

/// The size of a type.
pub fn type_size_of(t: &TypeDesc) -> (r: u64)
    ensures
        r == type_size(t.model()),
        r < 0x20_0000_0000,
{
    proof {
        lemma_type_model(*t);
    }
    if t.members.len() == 0 {
        match natural_size_of(t) {
            Some(s) => s,
            None => 0,
        }
    } else {
        struct_size_of(&t.members)
    }
}

/// The size of a variable of the type in a constant buffer.
pub fn derived_var_size_of(t: &TypeDesc) -> (r: Option<u64>)
    ensures
        match r {
            Some(s) => derived_var_size(t.model()) == Some(s as nat),
            None => derived_var_size(t.model()) is None,
        },
{
    match element_size_of(t) {
        None => None,
        Some(e) => {
            if t.elements == 0 {
                Some(e)
            } else {
                let r: u64 = ((e + 15) / 16) * 16;
                let n: u64 = t.elements as u64 - 1;
                assert(n * r <= 0xffff * 0x20_0000_0000) by (nonlinear_arith)
                    requires
                        n <= 0xffff,
                        r <= 0x20_0000_0000,
                ;
                Some(n * r + e)
            }
        },
    }
}

/// The number of scalars in a type that is neither a struct nor an array.
pub fn component_count_of(t: &TypeDesc) -> (r: Option<u64>)
    ensures
        match r {
            Some(s) => component_count(t.model()) == Some(s as nat),
            None => component_count(t.model()) is None,
        },
{
    proof {
        lemma_type_model(*t);
    }
    if t.elements != 0 || t.members.len() > 0 {
        return None;
    }
    let rows: u64 = t.rows as u64;
    let cols: u64 = t.columns as u64;
    assert(rows * cols <= 0xffff * 0xffff) by (nonlinear_arith)
        requires
            rows <= 0xffff,
            cols <= 0xffff,
    ;
    match t.class {
        0 => Some(1),
        1 => Some(cols),
        2 => Some(rows * cols),
        3 => Some(rows * cols),
        _ => None,
    }
}

// ---------------------------------------------------------------------------
// Type spellings
// ---------------------------------------------------------------------------

/// Base types by name.
pub open spec fn base_names() -> NameTable {
    seq![
        ("bool"@, 1u32),
        ("int"@, 2u32),
        ("float"@, 3u32),
        ("uint"@, 19u32),
        ("double"@, 39u32),
    ]
}

fn base_table() -> (r: [(&'static str, u32); 5])
    ensures
        table_of(r@) == base_names(),
{
    let r = [("bool", 1u32), ("int", 2u32), ("float", 3u32), ("uint", 19u32), ("double", 39u32)];
    assert(table_of(r@) =~= base_names());
    r
}

/// The array suffix of a type, where it is an array.
pub open spec fn array_suffix(elements: u16) -> Seq<char> {
    if elements > 0 {
        "["@ + dec_text(elements as nat) + "]"@
    } else {
        Seq::empty()
    }
}

/// The spelling of a scalar, vector or matrix type: base, size and array
/// length.
pub open spec fn hlsl_type_text(t: TypeModel) -> Option<Seq<char>> {
    match table_name(base_names(), t.var_type as u32) {
        None => None,
        Some(b) => if t.class == 0 {
            Some(b + array_suffix(t.elements))
        } else if t.class == 1 {
            Some(b + dec_text(t.columns as nat) + array_suffix(t.elements))
        } else if t.class == 2 || t.class == 3 {
            Some(
                b + dec_text(t.rows as nat) + "x"@ + dec_text(t.columns as nat) + array_suffix(
                    t.elements,
                ),
            )
        } else {
            None
        },
    }
}

fn push_array_suffix(o: &mut String, elements: u16)
    ensures
        final(o)@ == old(o)@ + array_suffix(elements),
{
    let mut l = String::new();
    if elements > 0 {
        push_text(&mut l, "[");
        assert(l@ =~= "["@);
        push_dec(&mut l, elements as u64);
        push_text(&mut l, "]");
    }
    push_text(o, l.as_str());
}

/// The spelling of a scalar, vector or matrix type.
pub fn hlsl_type_name(t: &TypeDesc) -> (r: Option<String>)
    ensures
        match r {
            Some(s) => hlsl_type_text(t.model()) == Some(s@),
            None => hlsl_type_text(t.model()) is None,
        },
{
    let table = base_table();
    let base = match name_of(&table, t.var_type as u32) {
        Some(b) => b,
        None => {
            return None;
        },
    };
    let mut o = String::new();
    push_text(&mut o, base);
    assert(o@ =~= base@);
    match t.class {
        0 => {},
        1 => {
            push_dec(&mut o, t.columns as u64);
        },
        2 => {
            push_dec(&mut o, t.rows as u64);
            push_text(&mut o, "x");
            push_dec(&mut o, t.columns as u64);
        },
        3 => {
            push_dec(&mut o, t.rows as u64);
            push_text(&mut o, "x");
            push_dec(&mut o, t.columns as u64);
        },
        _ => {
            return None;
        },
    }
    push_array_suffix(&mut o, t.elements);
    Some(o)
}

/// Class, base type, rows and columns of a type spelling.
pub struct TypeShape {
    /// The class.
    pub class: u16,
    /// The base type.
    pub base: u16,
    /// The number of rows.
    pub rows: u16,
    /// The number of columns.
    pub cols: u16,
}

/// A number of at most sixteen bits.
pub open spec fn read_u16(s: Seq<char>) -> Option<u16> {
    match parse_nat(s, 10, 0xffff) {
        Some(v) => Some(v as u16),
        None => None,
    }
}

/// The longest base name that `s` begins with, of the first `n`: its length and
/// its number.
pub open spec fn base_prefix(s: Seq<char>, n: int) -> Option<(nat, u32)>
    decreases n,
{
    if n <= 0 || n > 5 {
        None
    } else {
        let (name, v) = base_names()[n - 1];
        if crate::text::starts_with(s, name) {
            Some((name.len(), v))
        } else {
            base_prefix(s, n - 1)
        }
    }
}

/// The shape of a scalar, vector or matrix spelling without array length; a
/// matrix goes by columns.
pub open spec fn read_shape(s: Seq<char>) -> Option<TypeShape> {
    match base_prefix(s, 5) {
        None => None,
        Some((n, base)) => {
            let rest = s.skip(n as int);
            if rest.len() == 0 {
                Some(TypeShape { class: 0, base: base as u16, rows: 1, cols: 1 })
            } else {
                match split_once(rest, 'x') {
                    Some((r, c)) => match (read_u16(r), read_u16(c)) {
                        (Some(rows), Some(cols)) => Some(
                            TypeShape { class: 3, base: base as u16, rows, cols },
                        ),
                        _ => None,
                    },
                    None => match read_u16(rest) {
                        Some(cols) => Some(
                            TypeShape { class: 1, base: base as u16, rows: 1, cols },
                        ),
                        None => None,
                    },
                }
            }
        },
    }
}

fn parse_u16(s: &[char]) -> (r: Option<u16>)
    ensures
        r == read_u16(s@),
{
    match parse_unsigned(s, 10, 0xffff) {
        Some(v) => Some(v as u16),
        None => None,
    }
}

/// The shape of a scalar, vector or matrix spelling.
pub fn parse_hlsl_type(s: &[char]) -> (r: Option<TypeShape>)
    ensures
        r == read_shape(s@),
{
    let table = base_table();
    let mut n: usize = 5;
    while n > 0
        invariant
            table_of(table@) == base_names(),
            n <= 5,
            base_prefix(s@, 5) == base_prefix(s@, n as int),
        decreases n,
    {
        let (name, base) = table[n - 1];
        assert(table_of(table@)[n - 1] == (name@, base));
        match strip_text(s, name) {
            Some(rest) => {
                assert(rest@ == s@.skip(name@.len() as int));
                if rest.len() == 0 {
                    return Some(TypeShape { class: 0, base: base as u16, rows: 1, cols: 1 });
                }
                return match split_at_first(rest, 'x') {
                    Some((r, c)) => match (parse_u16(r), parse_u16(c)) {
                        (Some(rows), Some(cols)) => Some(
                            TypeShape { class: 3, base: base as u16, rows, cols },
                        ),
                        _ => None,
                    },
                    None => match parse_u16(rest) {
                        Some(cols) => Some(
                            TypeShape { class: 1, base: base as u16, rows: 1, cols },
                        ),
                        None => None,
                    },
                };
            },
            None => {},
        }
        n -= 1;
    }
    None
}

/// The spelling of a reference to a type: a struct by its name.
pub open spec fn type_ref(t: TypeModel) -> Option<Seq<char>> {
    if t.members.len() > 0 || t.class == 5 {
        if t.name.len() == 0 {
            None
        } else {
            Some(t.name + array_suffix(t.elements))
        }
    } else {
        hlsl_type_text(t)
    }
}

/// The spelling of a reference to a type.
pub fn type_ref_of(t: &TypeDesc) -> (r: Option<String>)
    ensures
        match r {
            Some(s) => type_ref(t.model()) == Some(s@),
            None => type_ref(t.model()) is None,
        },
{
    proof {
        lemma_type_model(*t);
    }
    if t.members.len() > 0 || t.class == 5 {
        if t.name.as_str().is_empty() {
            return None;
        }
        let mut o = String::new();
        push_text(&mut o, t.name.as_str());
        assert(o@ =~= t.name@);
        push_array_suffix(&mut o, t.elements);
        Some(o)
    } else {
        hlsl_type_name(t)
    }
}

/// A spelling without its array length, and the array length's text.
pub open spec fn split_array(s: Seq<char>) -> (Seq<char>, Option<Seq<char>>) {
    match split_once(s, '[') {
        Some((stem, rest)) => (stem, strip_last(rest, ']')),
        None => (s, None),
    }
}

/// A spelling without its array length, and the array length's text.
pub fn split_array_of<'a>(s: &'a [char]) -> (r: (&'a [char], Option<&'a [char]>))
    ensures
        r.0@ == split_array(s@).0,
        match r.1 {
            Some(n) => split_array(s@).1 == Some(n@),
            None => split_array(s@).1 is None,
        },
{
    match split_at_first(s, '[') {
        Some((stem, rest)) => (stem, strip_last_char(rest, ']')),
        None => (s, None),
    }
}

/// A name and its array length, nought where it has none.
pub open spec fn read_name(s: Seq<char>) -> Option<(Seq<char>, u16)> {
    match split_once(s, '[') {
        Some((n, rest)) => match strip_last(rest, ']') {
            Some(k) => match read_u16(k) {
                Some(e) => Some((n, e)),
                None => None,
            },
            None => None,
        },
        None => Some((s, 0)),
    }
}

/// A name and its array length.
pub fn parse_name<'a>(s: &'a [char]) -> (r: Option<(&'a [char], u16)>)
    ensures
        match r {
            Some((n, e)) => read_name(s@) == Some((n@, e)),
            None => read_name(s@) is None,
        },
{
    match split_at_first(s, '[') {
        Some((n, rest)) => match strip_last_char(rest, ']') {
            Some(k) => match parse_u16(k) {
                Some(e) => Some((n, e)),
                None => None,
            },
            None => None,
        },
        None => Some((s, 0)),
    }
}

/// A type that is the same in all.
pub fn copy_type(t: &TypeDesc) -> (r: TypeDesc)
    ensures
        r.model() == t.model(),
    decreases t,
{
    let mut members: Vec<MemberDesc> = Vec::new();
    let mut i: usize = 0;
    while i < t.members.len()
        invariant
            i <= t.members.len(),
            members@.len() == i,
            forall|k: int| 0 <= k < i ==> #[trigger] members@[k].model() == t.members@[k].model(),
        decreases t.members.len() - i,
    {
        let m = &t.members[i];
        assert(decreases_to!(t => t.members, t.members@[i as int]));
        members.push(
            MemberDesc {
                name: m.name.clone(),
                member_type: copy_type(&m.member_type),
                offset: m.offset,
            },
        );
        i += 1;
    }
    let r = TypeDesc {
        class: t.class,
        var_type: t.var_type,
        rows: t.rows,
        columns: t.columns,
        elements: t.elements,
        members,
        sm5_extra: t.sm5_extra,
        name: t.name.clone(),
    };
    proof {
        lemma_type_model(r);
        lemma_type_model(*t);
        assert(member_models(r.members@) =~= member_models(t.members@));
    }
    r
}

// ---------------------------------------------------------------------------
// Default values
// ---------------------------------------------------------------------------

/// A scalar as a literal, where it has one that reads back.
pub open spec fn scalar_text(var_type: u16, w: u32, ft: Spellings) -> Option<Seq<char>> {
    if var_type == 3 {
        plainly_spelled(ft, w)
    } else if var_type == 2 {
        Some(int_text(signed_value(w)))
    } else if var_type == 19 {
        Some(dec_text(w as nat))
    } else if var_type == 1 && w == 0 {
        Some("false"@)
    } else {
        None
    }
}

/// The scalar that a literal stands for.
pub open spec fn read_scalar(var_type: u16, s: Seq<char>, ft: Spellings) -> Option<u32> {
    if var_type == 3 {
        bits_of_text(ft, s)
    } else if var_type == 2 {
        match parse_int(s, 0x7fff_ffff) {
            Some(i) => Some(word_of_int(i)),
            None => None,
        }
    } else if var_type == 19 {
        word_in(s, 10)
    } else if var_type == 1 && s == "false"@ {
        Some(0)
    } else if var_type == 1 && s == "true"@ {
        Some(1)
    } else {
        None
    }
}

fn scalar_value_str(var_type: u16, w: u32, ft: &FloatTable) -> (r: Option<String>)
    ensures
        match r {
            Some(s) => scalar_text(var_type, w, ft@) == Some(s@),
            None => scalar_text(var_type, w, ft@) is None,
        },
{
    let mut o = String::new();
    if var_type == 3 {
        match ft.plain_spelling(w) {
            Some(s) => {
                push_chars(&mut o, s.as_slice());
                assert(o@ =~= s@);
            },
            None => {
                return None;
            },
        }
    } else if var_type == 2 {
        let i: i64 = if w < 0x8000_0000 { w as i64 } else { w as i64 - 0x1_0000_0000 };
        push_int(&mut o, i);
        assert(o@ =~= int_text(signed_value(w)));
    } else if var_type == 19 {
        push_dec(&mut o, w as u64);
        assert(o@ =~= dec_text(w as nat));
    } else if var_type == 1 && w == 0 {
        push_text(&mut o, "false");
        assert(o@ =~= "false"@);
    } else {
        return None;
    }
    Some(o)
}

fn scalar_value_parse(var_type: u16, s: &[char], ft: &FloatTable) -> (r: Option<u32>)
    ensures
        r == read_scalar(var_type, s@, ft@),
{
    if var_type == 3 {
        ft.bits(s)
    } else if var_type == 2 {
        match parse_signed(s, 0x7fff_ffff) {
            Some(i) => {
                let v: u32 = if i < 0 { (i + 0x1_0000_0000) as u32 } else { i as u32 };
                Some(v)
            },
            None => None,
        }
    } else if var_type == 19 {
        word_of(s, 10)
    } else if var_type == 1 && is_text(s, "false") {
        Some(0)
    } else if var_type == 1 && is_text(s, "true") {
        Some(1)
    } else {
        None
    }
}

/// The literals of the first `n` words at a distance of `stride` bytes,
/// separated by commas.
pub open spec fn literals(
    var_type: u16,
    b: Seq<u8>,
    stride: int,
    n: int,
    ft: Spellings,
) -> Option<Seq<char>>
    decreases n,
{
    if n <= 0 {
        Some(Seq::empty())
    } else {
        match (literals(var_type, b, stride, n - 1, ft), read_at(b, (n - 1) * stride)) {
            (Some(before), Some(w)) => match scalar_text(var_type, w, ft) {
                Some(s) => Some(
                    (if n > 1 {
                        before.push(',')
                    } else {
                        before
                    }) + s,
                ),
                None => None,
            },
            _ => None,
        }
    }
}

/// Whether the bytes between the first `n` words of an array, which stand
/// sixteen bytes apart, are nought.
pub open spec fn padding_is_zero(b: Seq<u8>, n: int) -> bool {
    forall|e: int, k: int|
        0 <= e < n && 4 <= k < 16 && e * 16 + k < b.len() ==> #[trigger] b[e * 16 + k] == 0
}

/// A default value as an initializer, where it has one that reads back as the same
/// bytes.
pub open spec fn default_text(t: TypeModel, b: Seq<u8>, ft: Spellings) -> Option<Seq<char>> {
    if t.members.len() > 0 {
        None
    } else if t.elements == 0 {
        match component_count(t) {
            None => None,
            Some(n) => if n == 0 || b.len() != 4 * n {
                None
            } else {
                match literals(t.var_type, b, 4, n as int, ft) {
                    None => None,
                    Some(ls) => if n == 1 {
                        Some(ls)
                    } else {
                        match hlsl_type_text(t) {
                            Some(name) => Some(name + "("@ + ls + ")"@),
                            None => None,
                        }
                    },
                }
            },
        }
    } else if t.class != 0 || b.len() != (t.elements - 1) * 16 + 4 || !padding_is_zero(
        b,
        t.elements - 1,
    ) {
        None
    } else {
        match literals(t.var_type, b, 16, t.elements as int, ft) {
            Some(ls) => Some("{"@ + ls + "}"@),
            None => None,
        }
    }
}

/// Where the first words have no literals, nor have more words.
proof fn lemma_literals_none(var_type: u16, b: Seq<u8>, stride: int, k: int, n: int, ft: Spellings)
    requires
        0 <= k <= n,
        literals(var_type, b, stride, k, ft) is None,
    ensures
        literals(var_type, b, stride, n, ft) is None,
    decreases n - k,
{
    if k < n {
        lemma_literals_none(var_type, b, stride, k + 1, n, ft);
    }
}

/// The literals of the first `n` words at a distance of `stride` bytes.
fn literals_of(var_type: u16, b: &Vec<u8>, stride: u64, n: u64, ft: &FloatTable) -> (r: Option<
    String,
>)
    requires
        4 <= stride <= 16,
    ensures
        match r {
            Some(s) => literals(var_type, b@, stride as int, n as int, ft@) == Some(s@),
            None => literals(var_type, b@, stride as int, n as int, ft@) is None,
        },
{
    let mut o = String::new();
    let mut i: u64 = 0;
    let mut at: u128 = 0;
    while i < n
        invariant
            4 <= stride <= 16,
            i <= n,
            at == i * stride,
            at <= b@.len() + 16,
            literals(var_type, b@, stride as int, i as int, ft@) == Some(o@),
        decreases n - i,
    {
        let ghost before = o@;
        let len: u128 = b.len() as u128;
        let word = if at > len {
            None
        } else {
            get_u32(b.as_slice(), at as usize)
        };
        assert(word == read_at(b@, i * stride));
        match word {
            None => {
                proof {
                    lemma_literals_none(
                        var_type,
                        b@,
                        stride as int,
                        i as int + 1,
                        n as int,
                        ft@,
                    );
                }
                return None;
            },
            Some(w) => match scalar_value_str(var_type, w, ft) {
                None => {
                    proof {
                        lemma_literals_none(
                            var_type,
                            b@,
                            stride as int,
                            i as int + 1,
                            n as int,
                            ft@,
                        );
                    }
                    return None;
                },
                Some(s) => {
                    if i > 0 {
                        o.push(',');
                    }
                    push_text(&mut o, s.as_str());
                },
            },
        }
        assert(i * stride + stride == (i + 1) * stride) by (nonlinear_arith);
        assert(at + 4 <= b@.len());
        at = at + stride as u128;
        i += 1;
    }
    Some(o)
}

fn padding_zero(b: &Vec<u8>, n: usize) -> (r: bool)
    requires
        n * 16 <= b@.len() + 16,
        n <= 0xffff,
    ensures
        r == padding_is_zero(b@, n as int),
{
    let mut e: usize = 0;
    while e < n
        invariant
            n <= 0xffff,
            e <= n,
            padding_is_zero(b@, e as int),
        decreases n - e,
    {
        let mut k: usize = 4;
        while k < 16
            invariant
                n <= 0xffff,
                e < n,
                4 <= k <= 16,
                padding_is_zero(b@, e as int),
                forall|j: int|
                    4 <= j < k && e * 16 + j < b@.len() ==> #[trigger] b@[e * 16 + j] == 0,
            decreases 16 - k,
        {
            let p: usize = e * 16 + k;
            if p < b.len() && b[p] != 0 {
                assert(b@[e * 16 + k] != 0);
                return false;
            }
            k += 1;
        }
        e += 1;
        assert(padding_is_zero(b@, e as int)) by {
            assert forall|f: int, j: int|
                0 <= f < e && 4 <= j < 16 && f * 16 + j < b@.len() implies #[trigger] b@[f * 16 + j]
                == 0 by {
                if f == e - 1 {
                    assert(b@[(e - 1) * 16 + j] == 0);
                }
            }
        }
    }
    true
}

/// A default value as an initializer, where it has one that reads back as the same
/// bytes.
pub fn render_default(t: &TypeDesc, b: &Vec<u8>, ft: &FloatTable) -> (r: Option<String>)
    ensures
        match r {
            Some(s) => default_text(t.model(), b@, ft@) == Some(s@),
            None => default_text(t.model(), b@, ft@) is None,
        },
{
    proof {
        lemma_type_model(*t);
    }
    if t.members.len() > 0 {
        return None;
    }
    if t.elements == 0 {
        let n: u64 = match component_count_of(t) {
            Some(n) => n,
            None => {
                return None;
            },
        };
        if n == 0 || b.len() as u128 != 4 * (n as u128) {
            return None;
        }
        let ls = match literals_of(t.var_type, b, 4, n, ft) {
            Some(s) => s,
            None => {
                return None;
            },
        };
        if n == 1 {
            return Some(ls);
        }
        return match hlsl_type_name(t) {
            Some(name) => {
                let mut o = String::new();
                push_text(&mut o, name.as_str());
                assert(o@ =~= name@);
                push_text(&mut o, "(");
                push_text(&mut o, ls.as_str());
                push_text(&mut o, ")");
                Some(o)
            },
            None => None,
        };
    }
    if t.class != 0 {
        return None;
    }
    let n: u64 = t.elements as u64;
    if b.len() as u64 != (n - 1) * 16 + 4 {
        return None;
    }
    if !padding_zero(b, t.elements as usize - 1) {
        return None;
    }
    match literals_of(t.var_type, b, 16, n, ft) {
        Some(ls) => {
            let mut o = String::new();
            push_text(&mut o, "{");
            assert(o@ =~= "{"@);
            push_text(&mut o, ls.as_str());
            push_text(&mut o, "}");
            Some(o)
        },
        None => None,
    }
}

/// The bytes of the first `n` scalars in `parts`, each followed by `gap` zeros
/// but for the last of all.
pub open spec fn read_scalars(
    var_type: u16,
    parts: Seq<Seq<char>>,
    gap: nat,
    n: int,
    ft: Spellings,
) -> Option<Seq<u8>>
    decreases n,
{
    if n <= 0 {
        Some(Seq::empty())
    } else {
        match (
            read_scalars(var_type, parts, gap, n - 1, ft),
            read_scalar(var_type, trim(parts[n - 1]), ft),
        ) {
            (Some(b), Some(w)) => Some(
                b + word_bytes(w) + (if n < parts.len() {
                    zeros(gap)
                } else {
                    Seq::empty()
                }),
            ),
            _ => None,
        }
    }
}

/// The parts of an initializer of several scalars.
pub open spec fn read_default_parts(t: TypeModel, s: Seq<char>) -> Option<Seq<Seq<char>>> {
    if t.elements != 0 {
        match strip_prefix(s, "{"@) {
            Some(r) => match strip_last(r, '}') {
                Some(inner) => Some(split(inner, ',')),
                None => None,
            },
            None => None,
        }
    } else if component_count(t) == Some(1nat) {
        Some(seq![s])
    } else {
        match split_once(s, '(') {
            Some((_, r)) => match strip_last(r, ')') {
                Some(inner) => Some(split(inner, ',')),
                None => None,
            },
            None => None,
        }
    }
}

/// The number of scalars an initializer of the type has.
pub open spec fn default_count(t: TypeModel) -> Option<nat> {
    if t.elements != 0 {
        Some(t.elements as nat)
    } else {
        component_count(t)
    }
}

/// The default value that an initializer stands for.
pub open spec fn read_default(t: TypeModel, s: Seq<char>, ft: Spellings) -> Option<Seq<u8>> {
    match (default_count(t), read_default_parts(t, s)) {
        (Some(n), Some(parts)) => if parts.len() != n {
            None
        } else {
            read_scalars(
                t.var_type,
                parts,
                if t.elements != 0 {
                    12
                } else {
                    0
                },
                n as int,
                ft,
            )
        },
        _ => None,
    }
}

/// Where the first parts are no scalars, nor are more parts.
proof fn lemma_scalars_none(
    var_type: u16,
    parts: Seq<Seq<char>>,
    gap: nat,
    k: int,
    n: int,
    ft: Spellings,
)
    requires
        0 <= k <= n,
        read_scalars(var_type, parts, gap, k, ft) is None,
    ensures
        read_scalars(var_type, parts, gap, n, ft) is None,
    decreases n - k,
{
    if k < n {
        lemma_scalars_none(var_type, parts, gap, k + 1, n, ft);
    }
}

fn scalars_of(var_type: u16, parts: &Vec<&[char]>, gap: usize, ft: &FloatTable) -> (r: Option<
    Vec<u8>,
>)
    ensures
        match r {
            Some(b) => read_scalars(var_type, views(parts@), gap as nat, parts@.len() as int, ft@)
                == Some(b@),
            None => read_scalars(var_type, views(parts@), gap as nat, parts@.len() as int, ft@) is None,
        },
{
    let ghost ps = views(parts@);
    let mut out: Vec<u8> = Vec::new();
    let mut i: usize = 0;
    assert(out@ =~= Seq::empty());
    while i < parts.len()
        invariant
            ps == views(parts@),
            i <= parts.len(),
            read_scalars(var_type, ps, gap as nat, i as int, ft@) == Some(out@),
        decreases parts.len() - i,
    {
        assert(ps[i as int] == parts@[i as int]@);
        match scalar_value_parse(var_type, trimmed(parts[i]), ft) {
            None => {
                proof {
                    lemma_scalars_none(
                        var_type,
                        ps,
                        gap as nat,
                        i as int + 1,
                        ps.len() as int,
                        ft@,
                    );
                }
                return None;
            },
            Some(w) => {
                let ghost b = out@;
                push_u32(&mut out, w);
                let ghost c = out@;
                if i + 1 < parts.len() {
                    let mut k: usize = 0;
                    assert(zeros(0) =~= Seq::empty());
                    assert(out@ =~= c + zeros(0));
                    while k < gap
                        invariant
                            k <= gap,
                            out@ == c + zeros(k as nat),
                        decreases gap - k,
                    {
                        out.push(0);
                        k += 1;
                        assert(out@ =~= c + zeros(k as nat));
                    }
                } else {
                    assert(out@ =~= c + Seq::<u8>::empty());
                }
            },
        }
        i += 1;
    }
    Some(out)
}

/// The default value that an initializer stands for.
pub fn parse_default(t: &TypeDesc, s: &[char], ft: &FloatTable) -> (r: Option<Vec<u8>>)
    ensures
        match r {
            Some(b) => read_default(t.model(), s@, ft@) == Some(b@),
            None => read_default(t.model(), s@, ft@) is None,
        },
{
    let n: u64;
    let parts: Vec<&[char]>;
    let gap: usize;
    if t.elements != 0 {
        n = t.elements as u64;
        gap = 12;
        match strip_text(s, "{") {
            Some(r) => match strip_last_char(r, '}') {
                Some(inner) => {
                    parts = split_chars(inner, ',');
                },
                None => {
                    return None;
                },
            },
            None => {
                return None;
            },
        }
    } else {
        n = match component_count_of(t) {
            Some(n) => n,
            None => {
                return None;
            },
        };
        gap = 0;
        if n == 1 {
            let mut v: Vec<&[char]> = Vec::new();
            v.push(s);
            assert(views(v@) =~= seq![s@]);
            parts = v;
        } else {
            match split_at_first(s, '(') {
                Some((_, r)) => match strip_last_char(r, ')') {
                    Some(inner) => {
                        parts = split_chars(inner, ',');
                    },
                    None => {
                        return None;
                    },
                },
                None => {
                    return None;
                },
            }
        }
    }
    assert(views(parts@).len() == parts@.len());
    if parts.len() as u64 != n {
        return None;
    }
    scalars_of(t.var_type, &parts, gap, ft)
}

// ---------------------------------------------------------------------------
// Pack offsets
// ---------------------------------------------------------------------------

/// A byte offset as register and component, where it is a multiple of four.
pub open spec fn packoffset_text(offset: u32) -> Option<Seq<char>> {
    if offset % 4 != 0 {
        None
    } else {
        let c = (offset % 16) / 4;
        Some(
            "c"@ + dec_text((offset / 16) as nat) + (if c == 0 {
                Seq::empty()
            } else if c == 1 {
                ".y"@
            } else if c == 2 {
                ".z"@
            } else {
                ".w"@
            }),
        )
    }
}

/// The number of a component.
pub open spec fn component_number(s: Seq<char>) -> Option<nat> {
    if s == "x"@ {
        Some(0)
    } else if s == "y"@ {
        Some(1)
    } else if s == "z"@ {
        Some(2)
    } else if s == "w"@ {
        Some(3)
    } else {
        None
    }
}

/// The byte offset that register and component stand for, where it fits a word.
pub open spec fn read_packoffset(s: Seq<char>) -> Option<u32> {
    match strip_prefix(s, "c"@) {
        None => None,
        Some(r) => {
            let (reg, comp) = match split_once(r, '.') {
                Some((a, c)) => (word_in(a, 10), component_number(c)),
                None => (word_in(r, 10), Some(0nat)),
            };
            match (reg, comp) {
                (Some(n), Some(c)) => if n * 16 + c * 4 <= 0xffff_ffff {
                    Some((n * 16 + c * 4) as u32)
                } else {
                    None
                },
                _ => None,
            }
        },
    }
}

/// A byte offset as register and component.
pub fn packoffset_str(offset: u32) -> (r: Option<String>)
    ensures
        match r {
            Some(s) => packoffset_text(offset) == Some(s@),
            None => packoffset_text(offset) is None,
        },
{
    if offset % 4 != 0 {
        return None;
    }
    let comp: u32 = (offset % 16) / 4;
    let mut o = String::new();
    push_text(&mut o, "c");
    assert(o@ =~= "c"@);
    push_dec(&mut o, (offset / 16) as u64);
    let suffix = if comp == 0 {
        ""
    } else if comp == 1 {
        ".y"
    } else if comp == 2 {
        ".z"
    } else {
        ".w"
    };
    proof {
        reveal_strlit("");
        assert(""@ =~= Seq::empty());
    }
    push_text(&mut o, suffix);
    Some(o)
}

/// The byte offset that register and component stand for.
pub fn packoffset_parse(s: &[char]) -> (r: Option<u32>)
    ensures
        r == read_packoffset(s@),
{
    let rest = match strip_text(s, "c") {
        Some(r) => r,
        None => {
            return None;
        },
    };
    let (reg, comp): (Option<u32>, Option<u64>) = match split_at_first(rest, '.') {
        Some((a, c)) => (
            word_of(a, 10),
            if is_text(c, "x") {
                Some(0)
            } else if is_text(c, "y") {
                Some(1)
            } else if is_text(c, "z") {
                Some(2)
            } else if is_text(c, "w") {
                Some(3)
            } else {
                None
            },
        ),
        None => (word_of(rest, 10), Some(0)),
    };
    match (reg, comp) {
        (Some(n), Some(c)) => {
            let v: u64 = n as u64 * 16 + c * 4;
            if v <= 0xffff_ffff {
                Some(v as u32)
            } else {
                None
            }
        },
        _ => None,
    }
}

// ---------------------------------------------------------------------------
// Flags, dimensions and return types
// ---------------------------------------------------------------------------

/// The bits without a name.
pub open spec fn extra_flags(f: u32) -> u32 {
    f & 0xFFFF_FFE0
}

/// The flags of a binding as names, and in hexadecimal what has no name.
pub open spec fn bind_flags_text(f: u32) -> Seq<char> {
    if f == 0 {
        "0"@
    } else {
        let names = flag_names_text(f, 5, '|');
        if extra_flags(f) == 0 {
            names
        } else {
            (if names.len() == 0 {
                names
            } else {
                names.push('|')
            }) + ("0x"@ + hex_text(extra_flags(f) as nat))
        }
    }
}

/// The bits of a flag's name, or of a number.
pub open spec fn read_flag(s: Seq<char>) -> Option<u32> {
    if s == "userPacked"@ {
        Some(0x1)
    } else if s == "comparisonSampler"@ {
        Some(0x2)
    } else if s == "texComp0"@ {
        Some(0x4)
    } else if s == "texComp1"@ {
        Some(0x8)
    } else if s == "unused"@ {
        Some(0x10)
    } else {
        match strip_prefix(s, "0x"@) {
            Some(h) => word_in(h, 16),
            None => word_in(s, 16),
        }
    }
}

/// The bits of the first `n` flags in `parts`.
pub open spec fn read_flags(parts: Seq<Seq<char>>, n: int) -> Option<u32>
    decreases n,
{
    if n <= 0 {
        Some(0)
    } else {
        match (read_flags(parts, n - 1), read_flag(parts[n - 1])) {
            (Some(f), Some(b)) => Some(f | b),
            _ => None,
        }
    }
}

/// The flags that a text stands for.
pub open spec fn read_bind_flags(s: Seq<char>) -> Option<u32> {
    read_flags(split(s, '|'), split(s, '|').len() as int)
}

/// The flags of a binding as text.
pub fn bind_flags_str(f: u32) -> (r: String)
    ensures
        r@ == bind_flags_text(f),
{
    if f == 0 {
        let mut o = String::new();
        push_text(&mut o, "0");
        assert(o@ =~= "0"@);
        return o;
    }
    let mut s = flag_names(f, '|');
    let extra: u32 = f & 0xFFFF_FFE0;
    if extra != 0 {
        if !s.as_str().is_empty() {
            s.push('|');
        }
        let mut h = String::new();
        push_text(&mut h, "0x");
        assert(h@ =~= "0x"@);
        push_hex(&mut h, extra as u64);
        push_text(&mut s, h.as_str());
    }
    s
}

fn parse_flag(s: &[char]) -> (r: Option<u32>)
    ensures
        r == read_flag(s@),
{
    if is_text(s, "userPacked") {
        Some(0x1)
    } else if is_text(s, "comparisonSampler") {
        Some(0x2)
    } else if is_text(s, "texComp0") {
        Some(0x4)
    } else if is_text(s, "texComp1") {
        Some(0x8)
    } else if is_text(s, "unused") {
        Some(0x10)
    } else {
        match strip_text(s, "0x") {
            Some(h) => word_of(h, 16),
            None => word_of(s, 16),
        }
    }
}

/// Where the first parts are no flags, nor are more parts.
proof fn lemma_flags_none(parts: Seq<Seq<char>>, k: int, n: int)
    requires
        0 <= k <= n,
        read_flags(parts, k) is None,
    ensures
        read_flags(parts, n) is None,
    decreases n - k,
{
    if k < n {
        lemma_flags_none(parts, k + 1, n);
    }
}

/// The flags that a text stands for.
pub fn bind_flags_from(s: &[char]) -> (r: Option<u32>)
    ensures
        r == read_bind_flags(s@),
{
    let parts = split_chars(s, '|');
    let ghost ps = views(parts@);
    let mut f: u32 = 0;
    let mut i: usize = 0;
    while i < parts.len()
        invariant
            ps == views(parts@),
            ps == split(s@, '|'),
            i <= parts.len(),
            read_flags(ps, i as int) == Some(f),
        decreases parts.len() - i,
    {
        assert(ps[i as int] == parts@[i as int]@);
        match parse_flag(parts[i]) {
            Some(b) => {
                f = f | b;
            },
            None => {
                proof {
                    lemma_flags_none(ps, i as int + 1, ps.len() as int);
                }
                return None;
            },
        }
        i += 1;
    }
    assert(ps.len() == parts@.len());
    Some(f)
}

/// Whether the kind of resource is a texture.
pub open spec fn is_texture(input_type: u32) -> bool {
    input_type == 2 || input_type == 4
}

/// Whether the kind of resource is a structured buffer.
pub open spec fn is_structured(input_type: u32) -> bool {
    input_type == 5 || input_type == 6 || input_type == 9 || input_type == 10 || input_type == 11
}

/// The flags that a declaration implies: a typed texture has four components.
pub open spec fn implied_flags(input_type: u32, return_type: u32) -> u32 {
    if is_texture(input_type) && return_type != 0 {
        0xC
    } else {
        0
    }
}

/// Whether the kind of resource is a texture.
pub fn texture(input_type: u32) -> (r: bool)
    ensures
        r == is_texture(input_type),
{
    input_type == 2 || input_type == 4
}

/// Whether the kind of resource is a structured buffer.
pub fn structured(input_type: u32) -> (r: bool)
    ensures
        r == is_structured(input_type),
{
    input_type == 5 || input_type == 6 || input_type == 9 || input_type == 10 || input_type == 11
}

/// The flags that a declaration implies.
pub fn derived_binding_flags(input_type: u32, return_type: u32) -> (r: u32)
    ensures
        r == implied_flags(input_type, return_type),
{
    if texture(input_type) && return_type != 0 {
        0xC
    } else {
        0
    }
}

/// Dimensions by their type names.
pub open spec fn dim_names() -> NameTable {
    seq![
        ("Buffer"@, 1u32),
        ("Texture1D"@, 2u32),
        ("Texture1DArray"@, 3u32),
        ("Texture2D"@, 4u32),
        ("Texture2DArray"@, 5u32),
        ("Texture2DMS"@, 6u32),
        ("Texture2DMSArray"@, 7u32),
        ("Texture3D"@, 8u32),
        ("TextureCube"@, 9u32),
        ("TextureCubeArray"@, 10u32),
    ]
}

/// Return types by their element names.
pub open spec fn ret_names() -> NameTable {
    seq![
        ("unorm4"@, 1u32),
        ("snorm4"@, 2u32),
        ("int4"@, 3u32),
        ("uint4"@, 4u32),
        ("float4"@, 5u32),
        ("mixed"@, 6u32),
        ("double4"@, 7u32),
    ]
}

fn dim_table() -> (r: [(&'static str, u32); 10])
    ensures
        table_of(r@) == dim_names(),
{
    let r = [
        ("Buffer", 1u32),
        ("Texture1D", 2u32),
        ("Texture1DArray", 3u32),
        ("Texture2D", 4u32),
        ("Texture2DArray", 5u32),
        ("Texture2DMS", 6u32),
        ("Texture2DMSArray", 7u32),
        ("Texture3D", 8u32),
        ("TextureCube", 9u32),
        ("TextureCubeArray", 10u32),
    ];
    assert(table_of(r@) =~= dim_names());
    r
}

fn ret_table() -> (r: [(&'static str, u32); 7])
    ensures
        table_of(r@) == ret_names(),
{
    let r = [
        ("unorm4", 1u32),
        ("snorm4", 2u32),
        ("int4", 3u32),
        ("uint4", 4u32),
        ("float4", 5u32),
        ("mixed", 6u32),
        ("double4", 7u32),
    ];
    assert(table_of(r@) =~= ret_names());
    r
}

/// The type name of a dimension.
pub fn dim_to_hlsl(d: u32) -> (r: Option<&'static str>)
    ensures
        match r {
            Some(n) => table_name(dim_names(), d) == Some(n@),
            None => table_name(dim_names(), d) is None,
        },
{
    let t = dim_table();
    name_of(&t, d)
}

/// The dimension of a type name.
pub fn dim_from_hlsl(s: &[char]) -> (r: Option<u32>)
    ensures
        r == table_value(dim_names(), s@),
{
    let t = dim_table();
    value_of(&t, s)
}

/// The element name of a return type.
pub fn ret_to_hlsl(v: u32) -> (r: Option<&'static str>)
    ensures
        match r {
            Some(n) => table_name(ret_names(), v) == Some(n@),
            None => table_name(ret_names(), v) is None,
        },
{
    let t = ret_table();
    name_of(&t, v)
}

/// The return type of an element name.
pub fn ret_from_hlsl(s: &[char]) -> (r: Option<u32>)
    ensures
        r == table_value(ret_names(), s@),
{
    let t = ret_table();
    value_of(&t, s)
}

} // verus!
