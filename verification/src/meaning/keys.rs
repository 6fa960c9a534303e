//! What the keys of signatures and resource definitions stand for.

use vstd::prelude::*;

use crate::chunks::rdef::{
    BindingModel, CBufferModel, MemberModel, RdefModel, TypeModel, VariableModel,
};
use crate::chunks::signature::SignatureVersion;
use crate::grammar::rdef::kv::{
    add_member, add_var, hex8_list, rdef_item, rdef_line, read_binding, read_cbuffer, read_hex_bytes,
    read_member, read_type, read_var, value_for, word_in,
};
use crate::grammar::signature::{component_types, mask_name, precisions, read_element};
use crate::grammar::shex::reading::word_of_int;
use crate::grammar::shex::text::{mask_has, mask_text, signed_value};
use crate::grammar::tables::table_value;
use crate::lines::{lemma_split_once_concat, split_once, words};
use crate::numerals::{dec_text, hex_padded, hex_text, int_reads_back, int_text, number_reads_back};
use crate::roundtrip::programs::lemma_not_contains;
use crate::roundtrip::rdef_text::{
    lemma_creator_line, lemma_flags_line, lemma_no_header, lemma_rd11_line, lemma_version_line,
    valid_creator,
};
use crate::roundtrip::signatures::{
    component_key, lemma_component_key, lemma_number_is_no_name, lemma_precision_key,
    mask_reads_back, precision_key,
};
use crate::roundtrip::tables::lemma_keyed;
use crate::text::{lacks, lemma_span_until, span_until, starts_with};

verus! {

// ---------------------------------------------------------------------------
// Words of a line
// ---------------------------------------------------------------------------

/// Whether the words of a line from number `from` on say `key=val`, and no word behind
/// that speaks of the key again.
pub open spec fn tells_from(
    ws: Seq<Seq<char>>,
    from: int,
    key: Seq<char>,
    val: Seq<char>,
) -> bool {
    exists|n: int|
        from <= n < ws.len() && #[trigger] ws[n] == key + seq!['='] + val && forall|m: int|
            n < m < ws.len() ==> !starts_with(#[trigger] ws[m], key + seq!['='])
}

/// Whether no word from number `from` on speaks of the key.
pub open spec fn silent_from(ws: Seq<Seq<char>>, from: int, key: Seq<char>) -> bool {
    forall|m: int| from <= m < ws.len() ==> !starts_with(#[trigger] ws[m], key + seq!['='])
}

/// Whether the words behind the first say `key=val`.
pub open spec fn tells(ws: Seq<Seq<char>>, key: Seq<char>, val: Seq<char>) -> bool {
    tells_from(ws, 1, key, val)
}

/// Whether no word behind the first speaks of the key.
pub open spec fn silent(ws: Seq<Seq<char>>, key: Seq<char>) -> bool {
    silent_from(ws, 1, key)
}

proof fn lemma_other_key(w: Seq<char>, key: Seq<char>)
    requires
        lacks(key, '='),
        !starts_with(w, key + seq!['=']),
    ensures
        match split_once(w, '=') {
            Some((k, _)) => k != key,
            None => true,
        },
{
    lemma_span_until(w, '=', '=', '=');
    let n = span_until(w, '=', '=', '=') as int;
    match split_once(w, '=') {
        Some((k, _)) => {
            if k == key {
                assert(w.take(n) == key);
                assert(w.take(key.len() as int + 1) =~= key + seq!['=']);
            }
        },
        None => {},
    }
}

proof fn lemma_told(
    ws: Seq<Seq<char>>,
    from: int,
    key: Seq<char>,
    val: Seq<char>,
    n: int,
    k: int,
)
    requires
        lacks(key, '='),
        0 <= from <= n < k <= ws.len(),
        ws[n] == key + seq!['='] + val,
        forall|m: int| n < m < ws.len() ==> !starts_with(#[trigger] ws[m], key + seq!['=']),
    ensures
        value_for(ws, from, k, key) == Some(val),
    decreases k,
{
    if n == k - 1 {
        lemma_not_contains(key, '=');
        lemma_split_once_concat(key, '=', val);
    } else {
        lemma_other_key(ws[k - 1], key);
        lemma_told(ws, from, key, val, n, k - 1);
    }
}

proof fn lemma_silent(ws: Seq<Seq<char>>, from: int, key: Seq<char>, k: int)
    requires
        lacks(key, '='),
        0 <= from,
        k <= ws.len(),
        silent_from(ws, from, key),
    ensures
        value_for(ws, from, k, key) is None,
    decreases k,
{
    if k > from {
        lemma_other_key(ws[k - 1], key);
        lemma_silent(ws, from, key, k - 1);
    }
}

/// A key that is told has its value, and one of which nothing is said has none.
pub proof fn lemma_value_from(ws: Seq<Seq<char>>, from: int, key: Seq<char>, val: Seq<char>)
    requires
        lacks(key, '='),
        0 <= from,
    ensures
        tells_from(ws, from, key, val) ==> value_for(ws, from, ws.len() as int, key) == Some(val),
        silent_from(ws, from, key) ==> value_for(ws, from, ws.len() as int, key) is None,
{
    if tells_from(ws, from, key, val) {
        let n = choose|n: int|
            from <= n < ws.len() && #[trigger] ws[n] == key + seq!['='] + val && forall|m: int|
                n < m < ws.len() ==> !starts_with(#[trigger] ws[m], key + seq!['=']);
        lemma_told(ws, from, key, val, n, ws.len() as int);
    }
    if silent_from(ws, from, key) {
        lemma_silent(ws, from, key, ws.len() as int);
    }
}

proof fn lemma_value(ws: Seq<Seq<char>>, key: Seq<char>, val: Seq<char>)
    requires
        lacks(key, '='),
    ensures
        tells(ws, key, val) ==> value_for(ws, 1, ws.len() as int, key) == Some(val),
        silent(ws, key) ==> value_for(ws, 1, ws.len() as int, key) is None,
{
    lemma_value_from(ws, 1, key, val);
}

proof fn lemma_dec(ws: Seq<Seq<char>>, key: Seq<char>, n: u32)
    requires
        lacks(key, '='),
        tells(ws, key, dec_text(n as nat)),
    ensures
        value_for(ws, 1, ws.len() as int, key) == Some(dec_text(n as nat)),
        word_in(dec_text(n as nat), 10) == Some(n),
{
    lemma_value(ws, key, dec_text(n as nat));
    number_reads_back(n as nat, 10, 0xffff_ffff);
}

proof fn lemma_hex(ws: Seq<Seq<char>>, key: Seq<char>, n: u32)
    requires
        lacks(key, '='),
        tells(ws, key, hex_text(n as nat)),
    ensures
        value_for(ws, 1, ws.len() as int, key) == Some(hex_text(n as nat)),
        word_in(hex_text(n as nat), 16) == Some(n),
{
    lemma_value(ws, key, hex_text(n as nat));
    number_reads_back(n as nat, 16, 0xffff_ffff);
}

// ---------------------------------------------------------------------------
// Signatures
// ---------------------------------------------------------------------------

/// A line of a signature says, in any order, the index, the register, the component
/// type, the mask and the mask of what is read or written, each under its key.
/// System value, stream and precision are nought where the line does not speak of
/// them, and a name of a single dash is empty.
pub proof fn signature_keys_have_their_meaning(
    ws: Seq<Seq<char>>,
    v: SignatureVersion,
    idx: u32,
    reg: u32,
    ty: u32,
    mask: u8,
    rw: u8,
)
    requires
        ws.len() > 0,
        tells(ws, "idx"@, dec_text(idx as nat)),
        tells(ws, "reg"@, dec_text(reg as nat)),
        tells(ws, "type"@, dec_text(ty as nat)),
        tells(ws, "mask"@, mask_name(mask)),
        tells(ws, "rw"@, mask_name(rw)),
        silent(ws, "sv"@),
        silent(ws, "stream"@),
        silent(ws, "prec"@),
    ensures
        ({
            let e = read_element(ws, v);
            &&& e is Some
            &&& e->0.semantic_name == if ws[0] == "-"@ {
                Seq::empty()
            } else {
                ws[0]
            }
            &&& e->0.semantic_index == idx
            &&& e->0.register == reg
            &&& e->0.component_type == ty
            &&& e->0.mask == mask
            &&& e->0.rw_mask == rw
            &&& e->0.system_value == 0
            &&& e->0.stream == if v is V0 {
                None
            } else {
                Some(0u32)
            }
            &&& e->0.min_precision is Some == v is V1
            &&& v is V1 ==> (e->0.min_precision->0).value == 0
        }),
{
    lemma_signature_keys();
    lemma_dec(ws, "idx"@, idx);
    lemma_dec(ws, "reg"@, reg);
    lemma_dec(ws, "type"@, ty);
    lemma_component_key();
    lemma_number_is_no_name(component_types(), ty);
    lemma_value(ws, "mask"@, mask_name(mask));
    lemma_value(ws, "rw"@, mask_name(rw));
    mask_reads_back(mask);
    mask_reads_back(rw);
    lemma_value(ws, "sv"@, Seq::empty());
    lemma_value(ws, "stream"@, Seq::empty());
    lemma_value(ws, "prec"@, Seq::empty());
}

proof fn lemma_signature_keys()
    ensures
        lacks("idx"@, '='),
        lacks("reg"@, '='),
        lacks("type"@, '='),
        lacks("mask"@, '='),
        lacks("rw"@, '='),
        lacks("sv"@, '='),
        lacks("stream"@, '='),
        lacks("prec"@, '='),
{
    reveal_strlit("idx");
    reveal_strlit("reg");
    reveal_strlit("type");
    reveal_strlit("mask");
    reveal_strlit("rw");
    reveal_strlit("sv");
    reveal_strlit("stream");
    reveal_strlit("prec");
}

/// System value, stream and precision stand under the keys `sv`, `stream` and `prec`;
/// chunks without streams or precisions do not look at theirs.
pub proof fn optional_signature_keys_have_their_meaning(
    ws: Seq<Seq<char>>,
    v: SignatureVersion,
    sv: u32,
    stream: u32,
    prec: u32,
)
    requires
        ws.len() > 0,
        read_element(ws, v) is Some,
        tells(ws, "sv"@, dec_text(sv as nat)),
        tells(ws, "stream"@, dec_text(stream as nat)),
        tells(ws, "prec"@, dec_text(prec as nat)),
    ensures
        ({
            let e = read_element(ws, v)->0;
            &&& e.system_value == sv
            &&& e.stream == if v is V0 {
                None
            } else {
                Some(stream)
            }
            &&& v is V1 ==> e.min_precision is Some && (e.min_precision->0).value == prec
        }),
{
    lemma_signature_keys();
    lemma_dec(ws, "sv"@, sv);
    lemma_dec(ws, "stream"@, stream);
    lemma_dec(ws, "prec"@, prec);
    lemma_precision_key();
    lemma_number_is_no_name(precisions(), prec);
}

/// The names of component types and their numbers.
pub proof fn component_types_have_their_numbers()
    ensures
        table_value(component_types(), "unknown"@) == Some(0u32),
        table_value(component_types(), "uint"@) == Some(1u32),
        table_value(component_types(), "int"@) == Some(2u32),
        table_value(component_types(), "float"@) == Some(3u32),
        table_value(component_types(), "uint16"@) == Some(4u32),
        table_value(component_types(), "int16"@) == Some(5u32),
        table_value(component_types(), "float16"@) == Some(6u32),
        table_value(component_types(), "uint64"@) == Some(7u32),
        table_value(component_types(), "int64"@) == Some(8u32),
        table_value(component_types(), "float64"@) == Some(9u32),
{
    lemma_component_key();
    let t = component_types();
    let key = |s: Seq<char>| component_key(s);
    assert(t[0].0 == "unknown"@ && t[1].0 == "uint"@ && t[2].0 == "int"@ && t[3].0 == "float"@
        && t[4].0 == "uint16"@ && t[5].0 == "int16"@ && t[6].0 == "float16"@ && t[7].0 == "uint64"@
        && t[8].0 == "int64"@ && t[9].0 == "float64"@);
    assert forall|i: int| 0 <= i < 10 implies table_value(t, (#[trigger] t[i]).0) == Some(t[i].1) by {
        lemma_keyed(t, key, t[i].0);
        assert(key(t[i].0) == t[i].1);
    }
}

/// The names of least precisions and their numbers.
pub proof fn precisions_have_their_numbers()
    ensures
        table_value(precisions(), "min16f"@) == Some(1u32),
        table_value(precisions(), "min2_8f"@) == Some(2u32),
        table_value(precisions(), "reserved"@) == Some(3u32),
        table_value(precisions(), "min16i"@) == Some(4u32),
        table_value(precisions(), "min16u"@) == Some(5u32),
        table_value(precisions(), "any16"@) == Some(0xF0u32),
        table_value(precisions(), "any10"@) == Some(0xF1u32),
{
    lemma_precision_key();
    let t = precisions();
    let key = |s: Seq<char>| precision_key(s);
    assert(t[0].0 == "min16f"@ && t[1].0 == "min2_8f"@ && t[2].0 == "reserved"@ && t[3].0
        == "min16i"@ && t[4].0 == "min16u"@ && t[5].0 == "any16"@ && t[6].0 == "any10"@);
    assert forall|i: int| 0 <= i < 7 implies table_value(t, (#[trigger] t[i]).0) == Some(t[i].1) by {
        lemma_keyed(t, key, t[i].0);
        assert(key(t[i].0) == t[i].1);
    }
}

/// Named component types, system values and precisions of a line count as their
/// numbers.
pub proof fn named_signature_values_have_their_numbers(
    ws: Seq<Seq<char>>,
    v: SignatureVersion,
    name: Seq<char>,
    n: u32,
)
    requires
        read_element(ws, v) is Some,
    ensures
        tells(ws, "type"@, name) && table_value(component_types(), name) == Some(n)
            ==> read_element(ws, v)->0.component_type == n,
        tells(ws, "prec"@, name) && table_value(precisions(), name) == Some(n) && v is V1 ==> (
        read_element(ws, v)->0.min_precision->0).value == n,
{
    lemma_signature_keys();
    lemma_value(ws, "type"@, name);
    lemma_value(ws, "prec"@, name);
}

/// A mask in letters holds x for its lowest bit, then y, z and w.
pub proof fn mask_letters_have_their_bits(m: u8)
    requires
        0 < m < 16,
    ensures
        mask_name(m).contains('x') == (m % 2 == 1),
        mask_name(m).contains('y') == (m / 2 % 2 == 1),
        mask_name(m).contains('z') == (m / 4 % 2 == 1),
        mask_name(m).contains('w') == (m / 8 % 2 == 1),
{
    lemma_mask_bits(m);
    reveal_with_fuel(mask_text, 6);
    let s = mask_text(m, 0);
    let x = if mask_has(m, 0) {
        seq!['x']
    } else {
        Seq::empty()
    };
    let y = if mask_has(m, 1) {
        seq!['y']
    } else {
        Seq::empty()
    };
    let z = if mask_has(m, 2) {
        seq!['z']
    } else {
        Seq::empty()
    };
    let w = if mask_has(m, 3) {
        seq!['w']
    } else {
        Seq::empty()
    };
    assert(s =~= x + y + z + w);
    assert(mask_name(m) == s);
    lemma_four_letters(x, y, z, w, s);
}

/// The bits of a mask of components.
pub proof fn lemma_mask_bits(m: u8)
    requires
        m < 16,
    ensures
        m & 0xf0 == 0,
        mask_has(m, 0) == (m % 2 == 1),
        mask_has(m, 1) == (m / 2 % 2 == 1),
        mask_has(m, 2) == (m / 4 % 2 == 1),
        mask_has(m, 3) == (m / 8 % 2 == 1),
{
    assert(m & 0xf0 == 0 && (m & 1 != 0) == (m % 2 == 1) && (m & 2 != 0) == (m / 2 % 2 == 1) && (m
        & 4 != 0) == (m / 4 % 2 == 1) && (m & 8 != 0) == (m / 8 % 2 == 1)) by (bit_vector)
        requires
            m < 16,
    ;
}

proof fn lemma_four_letters(
    x: Seq<char>,
    y: Seq<char>,
    z: Seq<char>,
    w: Seq<char>,
    s: Seq<char>,
)
    requires
        x == seq!['x'] || x.len() == 0,
        y == seq!['y'] || y.len() == 0,
        z == seq!['z'] || z.len() == 0,
        w == seq!['w'] || w.len() == 0,
        s == x + y + z + w,
    ensures
        s.contains('x') == (x.len() > 0),
        s.contains('y') == (y.len() > 0),
        s.contains('z') == (z.len() > 0),
        s.contains('w') == (w.len() > 0),
{
    if x.len() > 0 {
        assert(s[0] == 'x');
    }
    if y.len() > 0 {
        assert(s[x.len() as int] == 'y');
    }
    if z.len() > 0 {
        assert(s[(x.len() + y.len()) as int] == 'z');
    }
    if w.len() > 0 {
        assert(s[(x.len() + y.len() + z.len()) as int] == 'w');
    }
}

// ---------------------------------------------------------------------------
// Resource definitions
// ---------------------------------------------------------------------------

/// A line `binding` says, in any order, kind, return type, dimension, samples,
/// register and number of registers in decimal and flags in hexadecimal, each under
/// its key.
pub proof fn binding_keys_have_their_meaning(ws: Seq<Seq<char>>, b: BindingModel)
    requires
        ws.len() > 0,
        ws[0] == b.name,
        tells(ws, "input"@, dec_text(b.input_type as nat)),
        tells(ws, "return"@, dec_text(b.return_type as nat)),
        tells(ws, "dim"@, dec_text(b.dimension as nat)),
        tells(ws, "samples"@, dec_text(b.num_samples as nat)),
        tells(ws, "slot"@, dec_text(b.bind_point as nat)),
        tells(ws, "count"@, dec_text(b.bind_count as nat)),
        tells(ws, "flags"@, hex_text(b.flags as nat)),
    ensures
        read_binding(ws) == Some(b),
{
    reveal_strlit("input");
    reveal_strlit("return");
    reveal_strlit("dim");
    reveal_strlit("samples");
    reveal_strlit("slot");
    reveal_strlit("count");
    reveal_strlit("flags");
    lemma_dec(ws, "input"@, b.input_type);
    lemma_dec(ws, "return"@, b.return_type);
    lemma_dec(ws, "dim"@, b.dimension);
    lemma_dec(ws, "samples"@, b.num_samples);
    lemma_dec(ws, "slot"@, b.bind_point);
    lemma_dec(ws, "count"@, b.bind_count);
    lemma_hex(ws, "flags"@, b.flags);
}

/// A line `cbuffer` says size and kind in decimal and flags in hexadecimal.
pub proof fn buffer_keys_have_their_meaning(ws: Seq<Seq<char>>, c: CBufferModel)
    requires
        ws.len() > 0,
        ws[0] == c.name,
        c.variables.len() == 0,
        tells(ws, "size"@, dec_text(c.size as nat)),
        tells(ws, "flags"@, hex_text(c.flags as nat)),
        tells(ws, "kind"@, dec_text(c.cb_type as nat)),
    ensures
        read_cbuffer(ws) == Some(c),
{
    reveal_strlit("size");
    reveal_strlit("flags");
    reveal_strlit("kind");
    lemma_dec(ws, "size"@, c.size);
    lemma_hex(ws, "flags"@, c.flags);
    lemma_dec(ws, "kind"@, c.cb_type);
    assert(c.variables =~= Seq::empty());
}

/// Whether a line says class, base type, rows, columns and array elements of a type,
/// and its name and four words where it has them.
pub open spec fn tells_type(ws: Seq<Seq<char>>, t: TypeModel) -> bool {
    &&& t.members.len() == 0
    &&& tells(ws, "class"@, dec_text(t.class as nat))
    &&& tells(ws, "base"@, dec_text(t.var_type as nat))
    &&& tells(ws, "rows"@, dec_text(t.rows as nat))
    &&& tells(ws, "cols"@, dec_text(t.columns as nat))
    &&& tells(ws, "elements"@, dec_text(t.elements as nat))
    &&& if t.name.len() > 0 {
        tells(ws, "typename"@, t.name)
    } else {
        silent(ws, "typename"@)
    }
    &&& t.sm5_extra is None && silent(ws, "sm5"@)
}

proof fn lemma_type_told(ws: Seq<Seq<char>>, t: TypeModel)
    requires
        tells_type(ws, t),
    ensures
        read_type(ws) == Some(t),
{
    reveal_strlit("class");
    reveal_strlit("base");
    reveal_strlit("rows");
    reveal_strlit("cols");
    reveal_strlit("elements");
    reveal_strlit("typename");
    reveal_strlit("sm5");
    lemma_dec(ws, "class"@, t.class as u32);
    lemma_dec(ws, "base"@, t.var_type as u32);
    lemma_dec(ws, "rows"@, t.rows as u32);
    lemma_dec(ws, "cols"@, t.columns as u32);
    lemma_dec(ws, "elements"@, t.elements as u32);
    lemma_value(ws, "typename"@, t.name);
    lemma_value(ws, "sm5"@, Seq::empty());
    assert(t.members =~= Seq::empty());
    if t.name.len() == 0 {
        assert(t.name =~= Seq::empty());
    }
}

/// A line `member` says the member's type and its offset.
pub proof fn member_keys_have_their_meaning(ws: Seq<Seq<char>>, m: MemberModel)
    requires
        ws.len() > 0,
        ws[0] == m.name,
        tells_type(ws, m.member_type),
        tells(ws, "offset"@, dec_text(m.offset as nat)),
    ensures
        read_member(ws) == Some(m),
{
    reveal_strlit("offset");
    lemma_type_told(ws, m.member_type);
    lemma_dec(ws, "offset"@, m.offset);
}

/// A line `var` says the variable's type, offset and size, and its flags in
/// hexadecimal; and, where they are told, first slot and number of slots of its
/// textures and samplers.
pub proof fn variable_keys_have_their_meaning(ws: Seq<Seq<char>>, v: VariableModel)
    requires
        ws.len() > 0,
        ws[0] == v.name,
        tells_type(ws, v.var_type),
        tells(ws, "offset"@, dec_text(v.offset as nat)),
        tells(ws, "size"@, dec_text(v.size as nat)),
        tells(ws, "flags"@, hex_text(v.flags as nat)),
        v.default_value.len() == 0 && silent(ws, "default"@),
        v.texture_start is Some,
        v.texture_size is Some,
        v.sampler_start is Some,
        v.sampler_size is Some,
        tells(
            ws,
            "tex"@,
            int_text(signed_value(v.texture_start->0)) + seq![','] + dec_text(
                v.texture_size->0 as nat,
            ),
        ),
        tells(
            ws,
            "samp"@,
            int_text(signed_value(v.sampler_start->0)) + seq![','] + dec_text(
                v.sampler_size->0 as nat,
            ),
        ),
    ensures
        read_var(ws) == Some(v),
{
    reveal_strlit("offset");
    reveal_strlit("size");
    reveal_strlit("flags");
    reveal_strlit("default");
    reveal_strlit("tex");
    reveal_strlit("samp");
    lemma_type_told(ws, v.var_type);
    lemma_dec(ws, "offset"@, v.offset);
    lemma_dec(ws, "size"@, v.size);
    lemma_hex(ws, "flags"@, v.flags);
    lemma_value(ws, "default"@, Seq::empty());
    lemma_slots(ws, "tex"@, v.texture_start->0, v.texture_size->0);
    lemma_slots(ws, "samp"@, v.sampler_start->0, v.sampler_size->0);
    assert(v.default_value =~= Seq::empty());
}

proof fn lemma_slots(ws: Seq<Seq<char>>, key: Seq<char>, a: u32, b: u32)
    requires
        lacks(key, '='),
        tells(ws, key, int_text(signed_value(a)) + seq![','] + dec_text(b as nat)),
    ensures
        crate::grammar::rdef::kv::read_slots(ws, key) == Some(Some((a, b))),
{
    let i = signed_value(a);
    let x = int_text(i);
    let y = dec_text(b as nat);
    lemma_value(ws, key, x + seq![','] + y);
    int_reads_back(i, 0x7fff_ffff);
    number_reads_back(b as nat, 10, 0xffff_ffff);
    crate::roundtrip::modifiers::lemma_int_chars(i);
    lemma_not_contains(x, ',');
    lemma_split_once_concat(x, ',', y);
    assert(word_of_int(i) == a);
}

/// What lines with those words in front add: a binding, a buffer, a variable to the
/// last buffer, a member to the last variable.
pub proof fn lines_add_what_they_say(rd: RdefModel, line: Seq<char>, rest: Seq<char>)
    ensures
        line == "binding "@ + rest ==> rdef_line(rd, line) == match read_binding(words(rest)) {
            Some(b) => Some(RdefModel { bindings: rd.bindings.push(b), ..rd }),
            None => None,
        },
        line == "cbuffer "@ + rest ==> rdef_line(rd, line) == match read_cbuffer(words(rest)) {
            Some(c) => Some(RdefModel { constant_buffers: rd.constant_buffers.push(c), ..rd }),
            None => None,
        },
        line == "var "@ + rest ==> rdef_line(rd, line) == match read_var(words(rest)) {
            Some(v) => add_var(rd, v),
            None => None,
        },
        line == "member "@ + rest ==> rdef_line(rd, line) == match read_member(words(rest)) {
            Some(m) => add_member(rd, m),
            None => None,
        },
{
    lemma_heads();
    if line == "binding "@ + rest {
        lemma_head(rd, "binding"@, "binding "@, line, rest);
    }
    if line == "cbuffer "@ + rest {
        lemma_head(rd, "cbuffer"@, "cbuffer "@, line, rest);
    }
    if line == "var "@ + rest {
        lemma_head(rd, "var"@, "var "@, line, rest);
    }
    if line == "member "@ + rest {
        lemma_head(rd, "member"@, "member "@, line, rest);
    }
}

/// Whether a word stands at the head of lines, and so does `spaced` with the space
/// behind it.
spec fn is_head(head: Seq<char>, spaced: Seq<char>) -> bool {
    &&& lacks(head, ' ')
    &&& spaced == head.push(' ')
    &&& head.len() > 1
    &&& head[0] == 'b' || (head[0] == 'c' && head[1] == 'b') || head[0] == 'm' || (head[0] == 'v'
        && head[1] == 'a')
}

proof fn lemma_heads()
    ensures
        is_head("binding"@, "binding "@),
        is_head("cbuffer"@, "cbuffer "@),
        is_head("var"@, "var "@),
        is_head("member"@, "member "@),
        "binding"@ != "cbuffer"@,
        "binding"@ != "var"@,
        "binding"@ != "member"@,
        "cbuffer"@ != "var"@,
        "cbuffer"@ != "member"@,
        "var"@ != "member"@,
{
    reveal_strlit("binding ");
    reveal_strlit("cbuffer ");
    reveal_strlit("var ");
    reveal_strlit("member ");
    reveal_strlit("binding");
    reveal_strlit("cbuffer");
    reveal_strlit("var");
    reveal_strlit("member");
    assert("binding "@ =~= "binding"@.push(' '));
    assert("cbuffer "@ =~= "cbuffer"@.push(' '));
    assert("var "@ =~= "var"@.push(' '));
    assert("member "@ =~= "member"@.push(' '));
    assert("binding"@[0] == 'b' && "cbuffer"@[0] == 'c' && "var"@[0] == 'v' && "member"@[0] == 'm');
}

proof fn lemma_head(
    rd: RdefModel,
    head: Seq<char>,
    spaced: Seq<char>,
    line: Seq<char>,
    rest: Seq<char>,
)
    requires
        is_head(head, spaced),
        line == spaced + rest,
    ensures
        split_once(line, ' ') == Some((head, rest)),
        rdef_line(rd, line) == rdef_item(rd, line),
{
    lemma_not_contains(head, ' ');
    assert(line =~= head + seq![' '] + rest);
    lemma_split_once_concat(head, ' ', rest);
    assert(line[0] == head[0] && line[1] == head[1]);
    lemma_no_header(rd, line);
}

/// A variable is added to the last buffer, and a member to the last variable of the
/// last buffer, behind those that are there.
pub proof fn variables_are_added_last(rd: RdefModel, v: VariableModel, m: MemberModel)
    requires
        rd.constant_buffers.len() > 0,
    ensures
        ({
            let r = add_var(rd, v);
            let n = rd.constant_buffers.len() - 1;
            &&& r is Some
            &&& r->0.constant_buffers.len() == n + 1
            &&& r->0.constant_buffers[n].variables == rd.constant_buffers[n].variables.push(v)
            &&& r->0.constant_buffers.take(n) == rd.constant_buffers.take(n)
            &&& r->0.bindings == rd.bindings
        }),
        rd.constant_buffers.last().variables.len() > 0 ==> ({
            let r = add_member(rd, m);
            let n = rd.constant_buffers.len() - 1;
            let k = rd.constant_buffers[n].variables.len() - 1;
            &&& r is Some
            &&& r->0.constant_buffers.len() == n + 1
            &&& r->0.constant_buffers[n].variables.len() == k + 1
            &&& r->0.constant_buffers[n].variables[k].var_type.members
                == rd.constant_buffers[n].variables[k].var_type.members.push(m)
            &&& r->0.constant_buffers[n].variables.take(k) == rd.constant_buffers[n].variables.take(
                k,
            )
        }),
{
    let n = rd.constant_buffers.len() - 1;
    let r = add_var(rd, v);
    assert(r->0.constant_buffers.take(n) =~= rd.constant_buffers.take(n));
    if rd.constant_buffers.last().variables.len() > 0 {
        let q = add_member(rd, m);
        let k = rd.constant_buffers[n].variables.len() - 1;
        assert(q->0.constant_buffers[n].variables.take(k) =~= rd.constant_buffers[n].variables.take(
            k,
        ));
    }
}

/// The header lines say the shader model and the compile flags in hexadecimal, and
/// the creator.
pub proof fn header_lines_have_their_meaning(rd: RdefModel, x: u32, s: Seq<char>, e: [u32; 8])
    requires
        valid_creator(s),
    ensures
        rdef_line(rd, "version=0x"@ + hex_padded(x as nat, 8)) == Some(
            RdefModel { target_version: x, ..rd },
        ),
        rdef_line(rd, "flags=0x"@ + hex_text(x as nat)) == Some(
            RdefModel { compile_flags: x, ..rd },
        ),
        rdef_line(rd, "creator="@ + s) == Some(RdefModel { creator: s, ..rd }),
        rdef_line(rd, "rd11="@ + hex8_list(e)) == Some(RdefModel { rd11_extra: Some(e), ..rd }),
{
    lemma_version_line(rd, x);
    lemma_flags_line(rd, x);
    lemma_creator_line(rd, s);
    lemma_rd11_line(rd, e);
}

/// Bytes in hexadecimal are two digits each, the higher first, in their order.
pub proof fn hexadecimal_bytes_have_their_order(s: Seq<char>, b: Seq<u8>, i: int)
    requires
        read_hex_bytes(s) == Some(b),
        0 <= i < b.len(),
    ensures
        s.len() == 2 * b.len(),
        crate::numerals::digit_value(s[2 * i], 16) == Some(b[i] as int / 16),
        crate::numerals::digit_value(s[2 * i + 1], 16) == Some(b[i] as int % 16),
    decreases s.len(),
{
    let t = s.take(s.len() - 2);
    let c = read_hex_bytes(t)->0;
    lemma_hex_len(s, b);
    lemma_hex_len(t, c);
    if i < b.len() - 1 {
        hexadecimal_bytes_have_their_order(t, c, i);
        assert(t[2 * i] == s[2 * i] && t[2 * i + 1] == s[2 * i + 1]);
        assert(c[i] == b[i]);
    }
}

proof fn lemma_hex_len(s: Seq<char>, b: Seq<u8>)
    requires
        read_hex_bytes(s) == Some(b),
    ensures
        s.len() == 2 * b.len(),
    decreases s.len(),
{
    if s.len() > 0 {
        lemma_hex_len(s.take(s.len() - 2), read_hex_bytes(s.take(s.len() - 2))->0);
    }
}

} // verus!
