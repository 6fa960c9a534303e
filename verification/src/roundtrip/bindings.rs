//! Declarations of bindings in the HLSL form read back.

use vstd::prelude::*;

use crate::chunks::rdef::{BindingModel, CBufferModel};
use crate::grammar::rdef::decode::{
    key_from, low_word, read_binding, read_register_word, read_typespec, register_word,
    without_semicolon,
};
use crate::grammar::rdef::encode::{
    binding_text, count_note, dec_note, element_ref, flags_note, samples_note, shape_notes,
    typespec, wrapped,
};
use crate::grammar::rdef::hlsl::{
    bind_flags_text, dim_names, implied_flags, is_structured, is_texture, ret_names,
};
use crate::grammar::rdef::kv::value_for;
use crate::grammar::tables::table_name;
use crate::lines::{
    lemma_split_once_concat, split_once, trim, trim_end, trim_start, words,
};
use crate::numerals::{dec_text, int_reads_back, lemma_number_lacks, number_reads_back};
use crate::roundtrip::annotations::{
    bind_flags_read_back, dimension_names_read_back, lemma_bind_flags_solid, return_names_read_back,
};
use crate::roundtrip::programs::lemma_not_contains;
use crate::roundtrip::signatures::{
    Tags, good_tags, lemma_lookup_push, lemma_number_solid, lemma_spaced_prefix, lookup,
};
use crate::roundtrip::tables::lemma_name_number;
use crate::roundtrip::words::{lemma_tagged, lemma_words_spaced, solid, spaced, tagged};
use crate::text::{
    is_white, lacks, lemma_lacks_concat, lemma_span_until_concat, starts_with,
};

verus! {

// ---------------------------------------------------------------------------
// Types
// ---------------------------------------------------------------------------

/// The name of a dimension is a word that begins no other type.
proof fn lemma_dim(v: u32)
    requires
        table_name(dim_names(), v) is Some,
    ensures
        ({
            let n = table_name(dim_names(), v)->0;
            &&& solid(n)
            &&& lacks(n, '<')
            &&& n[0] == 'T' || (n[0] == 'B' && n.len() == 6)
        }),
{
    reveal_strlit("Buffer");
    reveal_strlit("Texture1D");
    reveal_strlit("Texture1DArray");
    reveal_strlit("Texture2D");
    reveal_strlit("Texture2DArray");
    reveal_strlit("Texture2DMS");
    reveal_strlit("Texture2DMSArray");
    reveal_strlit("Texture3D");
    reveal_strlit("TextureCube");
    reveal_strlit("TextureCubeArray");
    let t = dim_names();
    let n = table_name(t, v)->0;
    lemma_name_number(t, v);
    let i = choose|i: int| 0 <= i < t.len() && #[trigger] t[i].0 == n && t[i].1 == v;
    if i == 0 {
        assert(n == "Buffer"@);
    } else if i == 1 {
        assert(n == "Texture1D"@);
    } else if i == 2 {
        assert(n == "Texture1DArray"@);
    } else if i == 3 {
        assert(n == "Texture2D"@);
    } else if i == 4 {
        assert(n == "Texture2DArray"@);
    } else if i == 5 {
        assert(n == "Texture2DMS"@);
    } else if i == 6 {
        assert(n == "Texture2DMSArray"@);
    } else if i == 7 {
        assert(n == "Texture3D"@);
    } else if i == 8 {
        assert(n == "TextureCube"@);
    } else {
        assert(n == "TextureCubeArray"@);
    }
}

/// The name of a return type is a word; nought has none.
proof fn lemma_ret(v: u32)
    ensures
        match table_name(ret_names(), v) {
            Some(n) => solid(n) && v != 0,
            None => true,
        },
{
    reveal_strlit("unorm4");
    reveal_strlit("snorm4");
    reveal_strlit("int4");
    reveal_strlit("uint4");
    reveal_strlit("float4");
    reveal_strlit("mixed");
    reveal_strlit("double4");
    let t = ret_names();
    match table_name(t, v) {
        Some(n) => {
            lemma_name_number(t, v);
            let i = choose|i: int| 0 <= i < t.len() && #[trigger] t[i].0 == n && t[i].1 == v;
            if i == 0 {
                assert(n == "unorm4"@);
            } else if i == 1 {
                assert(n == "snorm4"@);
            } else if i == 2 {
                assert(n == "int4"@);
            } else if i == 3 {
                assert(n == "uint4"@);
            } else if i == 4 {
                assert(n == "float4"@);
            } else if i == 5 {
                assert(n == "mixed"@);
            } else {
                assert(n == "double4"@);
            }
        },
        None => {},
    }
}

/// Two words make a word.
proof fn lemma_solid_concat(a: Seq<char>, b: Seq<char>)
    requires
        solid(a),
        solid(b),
    ensures
        solid(a + b),
{
    let s = a + b;
    assert forall|i: int| 0 <= i < s.len() implies !is_white(#[trigger] s[i]) by {
        if i < a.len() {
            assert(!is_white(a[i]));
        } else {
            assert(!is_white(b[i - a.len()]));
        }
    }
}

/// A keyword with an element type is a word, and is taken apart at the bracket.
proof fn lemma_wrapped(keyword: Seq<char>, elem: Option<Seq<char>>)
    requires
        solid(keyword),
        lacks(keyword, '<'),
        elem is Some ==> solid(elem->0),
    ensures
        solid(wrapped(keyword, elem)),
        match elem {
            Some(e) => split_once(wrapped(keyword, elem), '<') == Some((keyword, e.push('>'))),
            None => split_once(wrapped(keyword, elem), '<') is None,
        },
{
    reveal_strlit("<");
    reveal_strlit(">");
    match elem {
        Some(e) => {
            assert(solid("<"@) && solid(">"@));
            lemma_solid_concat(keyword, "<"@);
            lemma_solid_concat(keyword + "<"@, e);
            lemma_solid_concat(keyword + "<"@ + e, ">"@);
            assert(keyword + "<"@ + e + ">"@ =~= keyword + seq!['<'] + e.push('>'));
            lemma_not_contains(keyword, '<');
            lemma_split_once_concat(keyword, '<', e.push('>'));
        },
        None => {
            let e = Seq::<char>::empty();
            assert(keyword + e =~= keyword);
            lemma_span_until_concat(keyword, e, '<', '<', '<');
        },
    }
}

/// Whether a binding says what its declaration can tell: a texture by dimension and
/// return type, a structured buffer by its element and without a stride.
pub open spec fn binding_fits(b: BindingModel, cs: Seq<CBufferModel>) -> bool {
    &&& solid(b.name)
    &&& b.input_type <= 10
    &&& is_texture(b.input_type) ==> table_name(dim_names(), b.dimension) is Some && (b.return_type
        == 0 || table_name(ret_names(), b.return_type) is Some)
    &&& is_structured(b.input_type) ==> b.num_samples == 0 && (element_ref(b, cs) is Some ==> solid(
        element_ref(b, cs)->0,
    ))
}

/// What the type and register class of a binding tell.
pub open spec fn told_shape(b: BindingModel) -> (u32, u32, u32) {
    if is_texture(b.input_type) {
        (b.input_type, b.dimension, b.return_type)
    } else {
        (b.input_type, 0, 0)
    }
}

/// The type of a texture reads back.
proof fn lemma_texture(b: BindingModel, cs: Seq<CBufferModel>)
    requires
        binding_fits(b, cs),
        is_texture(b.input_type),
    ensures
        typespec(b, cs) is Some,
        ({
            let (spec, class) = typespec(b, cs)->0;
            solid(spec) && read_typespec(spec, class) == Some(told_shape(b))
        }),
{
    let d = table_name(dim_names(), b.dimension)->0;
    let r = table_name(ret_names(), b.return_type);
    lemma_dim(b.dimension);
    lemma_ret(b.return_type);
    dimension_names_read_back(b.dimension, d);
    return_names_read_back(b.return_type, d);
    reveal_strlit("RW");
    let e = Seq::<char>::empty();
    assert(e + d =~= d);
    let stem = if b.input_type == 4 {
        "RW"@ + d
    } else {
        d
    };
    assert(solid("RW"@));
    lemma_solid_concat("RW"@, d);
    lemma_lacks_concat("RW"@, d, '<');
    lemma_wrapped(stem, r);
    lemma_other_names(d);
    if b.input_type == 4 {
        assert(stem.take(2) =~= "RW"@);
        assert(stem.skip(2) =~= d);
    } else if starts_with(d, "RW"@) {
        assert(d.take(2)[0] == 'R');
    }
    match r {
        Some(x) => {
            assert(x.push('>').drop_last() =~= x);
        },
        None => {},
    }
}

/// The names of types other than textures.
proof fn lemma_other_names(d: Seq<char>)
    requires
        d.len() > 0,
        d[0] == 'T' || (d[0] == 'B' && d.len() == 6),
    ensures
        d != "cbuffer"@,
        d != "tbuffer"@,
        d != "SamplerState"@,
        d != "StructuredBuffer"@,
        d != "RWStructuredBuffer"@,
        d != "ByteAddressBuffer"@,
        d != "RWByteAddressBuffer"@,
        d != "AppendStructuredBuffer"@,
        d != "ConsumeStructuredBuffer"@,
        "RW"@ + d != "cbuffer"@,
        "RW"@ + d != "tbuffer"@,
        "RW"@ + d != "SamplerState"@,
        "RW"@ + d != "StructuredBuffer"@,
        "RW"@ + d != "RWStructuredBuffer"@,
        "RW"@ + d != "ByteAddressBuffer"@,
        "RW"@ + d != "RWByteAddressBuffer"@,
        "RW"@ + d != "AppendStructuredBuffer"@,
        "RW"@ + d != "ConsumeStructuredBuffer"@,
{
    reveal_strlit("RW");
    reveal_strlit("cbuffer");
    reveal_strlit("tbuffer");
    reveal_strlit("SamplerState");
    reveal_strlit("StructuredBuffer");
    reveal_strlit("RWStructuredBuffer");
    reveal_strlit("ByteAddressBuffer");
    reveal_strlit("RWByteAddressBuffer");
    reveal_strlit("AppendStructuredBuffer");
    reveal_strlit("ConsumeStructuredBuffer");
    let w = "RW"@ + d;
    assert(w[0] == 'R' && w[2] == d[0] && w.len() == d.len() + 2);
    assert("cbuffer"@[0] == 'c' && "tbuffer"@[0] == 't' && "SamplerState"@[0] == 'S');
    assert("StructuredBuffer"@[0] == 'S' && "AppendStructuredBuffer"@[0] == 'A');
    assert("ConsumeStructuredBuffer"@[0] == 'C' && "ByteAddressBuffer"@[0] == 'B');
    assert("RWStructuredBuffer"@[0] == 'R' && "RWStructuredBuffer"@[2] == 'S');
    assert("RWByteAddressBuffer"@[0] == 'R' && "RWByteAddressBuffer"@[2] == 'B');
    assert("ByteAddressBuffer"@.len() == 17 && "RWByteAddressBuffer"@.len() == 19);
}

/// Each keyword is a word of its own.
proof fn lemma_keywords()
    ensures
        solid("cbuffer"@) && lacks("cbuffer"@, '<') && "cbuffer"@.len() == 7 && "cbuffer"@[0] == 'c',
        solid("tbuffer"@) && lacks("tbuffer"@, '<') && "tbuffer"@.len() == 7 && "tbuffer"@[0] == 't',
        solid("SamplerState"@) && lacks("SamplerState"@, '<') && "SamplerState"@.len() == 12,
        solid("StructuredBuffer"@) && lacks("StructuredBuffer"@, '<') && "StructuredBuffer"@.len()
            == 16,
        solid("RWStructuredBuffer"@) && lacks("RWStructuredBuffer"@, '<')
            && "RWStructuredBuffer"@.len() == 18,
        solid("ByteAddressBuffer"@) && lacks("ByteAddressBuffer"@, '<')
            && "ByteAddressBuffer"@.len() == 17,
        solid("RWByteAddressBuffer"@) && lacks("RWByteAddressBuffer"@, '<')
            && "RWByteAddressBuffer"@.len() == 19,
        solid("AppendStructuredBuffer"@) && lacks("AppendStructuredBuffer"@, '<')
            && "AppendStructuredBuffer"@.len() == 22,
        solid("ConsumeStructuredBuffer"@) && lacks("ConsumeStructuredBuffer"@, '<')
            && "ConsumeStructuredBuffer"@.len() == 23,
{
    reveal_strlit("cbuffer");
    reveal_strlit("tbuffer");
    reveal_strlit("SamplerState");
    reveal_strlit("StructuredBuffer");
    reveal_strlit("RWStructuredBuffer");
    reveal_strlit("ByteAddressBuffer");
    reveal_strlit("RWByteAddressBuffer");
    reveal_strlit("AppendStructuredBuffer");
    reveal_strlit("ConsumeStructuredBuffer");
}

/// The type of a binding reads back as far as it tells.
proof fn lemma_typespec(b: BindingModel, cs: Seq<CBufferModel>)
    requires
        binding_fits(b, cs),
    ensures
        typespec(b, cs) is Some,
        ({
            let (spec, class) = typespec(b, cs)->0;
            &&& solid(spec)
            &&& class == 'b' || class == 't' || class == 's' || class == 'u'
            &&& read_typespec(spec, class) == Some(told_shape(b))
        }),
{
    if is_texture(b.input_type) {
        lemma_texture(b, cs);
    } else {
        lemma_keywords();
        let e = element_ref(b, cs);
        let k = if b.input_type == 0 {
            "cbuffer"@
        } else if b.input_type == 1 {
            "tbuffer"@
        } else if b.input_type == 3 {
            "SamplerState"@
        } else if b.input_type == 5 {
            "StructuredBuffer"@
        } else if b.input_type == 6 {
            "RWStructuredBuffer"@
        } else if b.input_type == 7 {
            "ByteAddressBuffer"@
        } else if b.input_type == 8 {
            "RWByteAddressBuffer"@
        } else if b.input_type == 9 {
            "AppendStructuredBuffer"@
        } else {
            "ConsumeStructuredBuffer"@
        };
        if is_structured(b.input_type) {
            lemma_wrapped(k, e);
            if e is Some {
                assert((e->0).push('>').drop_last() =~= e->0);
            }
        } else {
            lemma_wrapped(k, None);
        }
    }
}

// ---------------------------------------------------------------------------
// Registers
// ---------------------------------------------------------------------------

/// The register of a binding.
pub open spec fn register_text(class: char, slot: u32, count: u32) -> Seq<char> {
    "register("@ + (seq![class] + dec_text(slot as nat) + (seq![')'] + count_note(count)))
}

/// The register of a binding is a word and reads back.
proof fn lemma_register(class: char, slot: u32, count: u32)
    requires
        class == 'b' || class == 't' || class == 's' || class == 'u',
    ensures
        solid(register_text(class, slot, count)),
        lacks(register_text(class, slot, count), '='),
        starts_with(register_text(class, slot, count), "register("@),
        read_register_word(register_text(class, slot, count)) == Some((class, slot, count)),
{
    reveal_strlit("register(");
    reveal_strlit("[");
    reveal_strlit("]");
    let d = dec_text(slot as nat);
    let c = dec_text(count as nat);
    let name = seq![class] + d;
    let note = count_note(count);
    let tail = seq![')'] + note;
    let r = name + tail;
    let s = register_text(class, slot, count);
    lemma_number_solid(slot as nat);
    lemma_number_solid(count as nat);
    number_reads_back(slot as nat, 10, 0xffff_ffff);
    number_reads_back(count as nat, 10, 0xffff_ffff);
    lemma_number_lacks(slot as nat, 10, ')');
    lemma_number_lacks(slot as nat, 10, '=');
    lemma_number_lacks(count as nat, 10, '=');
    assert(s.take(9) =~= "register("@);
    assert(s.skip(9) =~= r);
    lemma_lacks_concat(seq![class], d, ')');
    lemma_span_until_concat(name, tail, ')', ')', ')');
    let n = name.len() as int;
    assert(r.skip(n + 1) =~= note);
    assert(name.skip(1) =~= d);
    if count != 1 {
        assert(note.take(1) =~= "["@);
        assert(note.skip(1) =~= c + "]"@);
        assert((c + "]"@).drop_last() =~= c);
        assert((c + "]"@).last() == ']');
    }
    assert forall|i: int| 0 <= i < s.len() implies !is_white(#[trigger] s[i]) && s[i] != '=' by {
        if i < 9 {
            assert(s[i] == "register("@[i]);
        } else if i == 9 {
            assert(s[i] == class);
        } else if i < 10 + d.len() {
            assert(s[i] == d[i - 10]);
        } else if i == 10 + d.len() {
            assert(s[i] == ')');
        } else {
            let k = i - 11 - d.len();
            assert(s[i] == note[k]);
            if k == 0 {
                assert(note[k] == '[');
            } else if k <= c.len() {
                assert(note[k] == c[k - 1]);
            } else {
                assert(note[k] == ']');
            }
        }
    }
}

// ---------------------------------------------------------------------------
// Lines
// ---------------------------------------------------------------------------

/// Words and the tags behind them.
pub open spec fn with_tags(base: Seq<Seq<char>>, ps: Tags) -> Seq<Seq<char>> {
    base + Seq::new(ps.len(), |i: int| tagged(ps[i].0, ps[i].1))
}

/// The tags, each behind a space.
pub open spec fn notes(ps: Tags) -> Seq<char>
    decreases ps.len(),
{
    if ps.len() == 0 {
        Seq::empty()
    } else {
        notes(ps.drop_last()) + (seq![' '] + tagged(ps.last().0, ps.last().1))
    }
}

/// The line of words and tags.
proof fn lemma_tagged_line(base: Seq<Seq<char>>, ps: Tags)
    requires
        base.len() > 0,
    ensures
        ({
            let ws = with_tags(base, ps);
            spaced(ws, ws.len() as int) == spaced(base, base.len() as int) + notes(ps)
        }),
    decreases ps.len(),
{
    let ws = with_tags(base, ps);
    if ps.len() == 0 {
        assert(ws =~= base);
        assert(spaced(base, base.len() as int) + Seq::<char>::empty() =~= spaced(
            base,
            base.len() as int,
        ));
    } else {
        let us = with_tags(base, ps.drop_last());
        lemma_tagged_line(base, ps.drop_last());
        let n = us.len() as int;
        assert forall|i: int| 0 <= i < n implies #[trigger] us[i] == ws[i] by {}
        lemma_spaced_prefix(us, ws, n);
        let w = tagged(ps.last().0, ps.last().1);
        assert(ws[n] == w);
        let a = spaced(base, base.len() as int);
        let b = notes(ps.drop_last());
        assert(a + b + (seq![' '] + w) =~= a + (b + (seq![' '] + w)));
    }
}

/// The value of a key among the tags behind words that have none.
proof fn lemma_find(base: Seq<Seq<char>>, ps: Tags, from: int, n: int, key: Seq<char>)
    requires
        0 <= from <= base.len(),
        forall|i: int| from <= i < base.len() ==> lacks(#[trigger] base[i], '='),
        good_tags(ps),
        from <= n <= base.len() + ps.len(),
    ensures
        value_for(with_tags(base, ps), from, n, key) == if n <= base.len() {
            None
        } else {
            lookup(ps.take(n - base.len()), key)
        },
    decreases n,
{
    let ws = with_tags(base, ps);
    if n > from {
        lemma_find(base, ps, from, n - 1, key);
        if n <= base.len() {
            let w = base[n - 1];
            assert(ws[n - 1] == w);
            let e = Seq::<char>::empty();
            assert(w + e =~= w);
            lemma_span_until_concat(w, e, '=', '=', '=');
        } else {
            let k = n - base.len();
            let p = ps[k - 1];
            assert(ws[n - 1] == tagged(p.0, p.1));
            assert(lacks(p.0, '='));
            lemma_tagged(p.0, p.1);
            assert(ps.take(k).drop_last() =~= ps.take(k - 1));
            assert(ps.take(k).last() == p);
            if k == 1 {
                assert(ps.take(0) =~= Seq::empty());
            }
        }
    } else if n > base.len() {
        assert(ps.take(n - base.len()) =~= Seq::empty());
    }
}

/// One tag more, where it is wanted.
pub open spec fn and_tag(ps: Tags, wanted: bool, key: Seq<char>, val: Seq<char>) -> Tags {
    if wanted {
        ps.push((key, val))
    } else {
        ps
    }
}

/// The dimension that goes without saying.
pub open spec fn usual_dim(b: BindingModel) -> u32 {
    if is_structured(b.input_type) {
        1
    } else {
        0
    }
}

/// The return type that goes without saying.
pub open spec fn usual_ret(b: BindingModel) -> u32 {
    if is_structured(b.input_type) {
        6
    } else {
        0
    }
}

/// The number of samples that goes without saying.
pub open spec fn usual_samples(b: BindingModel) -> u32 {
    if is_texture(b.input_type) {
        0xFFFF_FFFF
    } else {
        0
    }
}

/// Which tags a declaration has: dimension, return type, samples and flags.
pub open spec fn wants_dim(b: BindingModel) -> bool {
    !is_texture(b.input_type) && b.dimension != usual_dim(b)
}

pub open spec fn wants_ret(b: BindingModel) -> bool {
    !is_texture(b.input_type) && b.return_type != usual_ret(b)
}

pub open spec fn wants_samples(b: BindingModel) -> bool {
    !is_structured(b.input_type) && b.num_samples != usual_samples(b)
}

pub open spec fn wants_flags(b: BindingModel) -> bool {
    b.flags != implied_flags(b.input_type, b.return_type)
}

/// The tags of a declaration.
pub open spec fn binding_tags(b: BindingModel) -> Tags {
    let p0 = Seq::<(Seq<char>, Seq<char>)>::empty();
    let p1 = and_tag(p0, wants_dim(b), "dim"@, dec_text(b.dimension as nat));
    let p2 = and_tag(p1, wants_ret(b), "ret"@, dec_text(b.return_type as nat));
    let p3 = and_tag(p2, wants_samples(b), "samples"@, dec_text(b.num_samples as nat));
    and_tag(p3, wants_flags(b), "flags"@, bind_flags_text(b.flags))
}

/// A tag more among good ones.
proof fn lemma_and_tag(ps: Tags, wanted: bool, key: Seq<char>, val: Seq<char>)
    requires
        good_tags(ps),
        solid(key),
        lacks(key, '='),
        solid(val),
    ensures
        good_tags(and_tag(ps, wanted, key, val)),
        notes(and_tag(ps, wanted, key, val)) == notes(ps) + if wanted {
            seq![' '] + key + seq!['='] + val
        } else {
            Seq::empty()
        },
        forall|k: Seq<char>|
            #![trigger lookup(and_tag(ps, wanted, key, val), k)]
            lookup(and_tag(ps, wanted, key, val), k) == if wanted && k == key {
                Some(val)
            } else {
                lookup(ps, k)
            },
{
    let qs = and_tag(ps, wanted, key, val);
    if wanted {
        lemma_lookup_push(ps, key, val);
        assert(solid(seq!['=']));
        lemma_solid_concat(key, seq!['=']);
        lemma_solid_concat(key + seq!['='], val);
        assert forall|i: int| 0 <= i < qs.len() implies lacks((#[trigger] qs[i]).0, '=') && solid(
            tagged(qs[i].0, qs[i].1),
        ) by {
            if i < ps.len() {
                assert(qs[i] == ps[i]);
            }
        }
        assert(qs.drop_last() =~= ps);
        assert(seq![' '] + tagged(key, val) =~= seq![' '] + key + seq!['='] + val);
    } else {
        assert(notes(ps) + Seq::<char>::empty() =~= notes(ps));
    }
}

/// The keys of a declaration.
proof fn lemma_keys()
    ensures
        solid("dim"@) && lacks("dim"@, '=') && "dim"@.len() == 3 && "dim"@[0] == 'd',
        solid("ret"@) && lacks("ret"@, '=') && "ret"@.len() == 3 && "ret"@[0] == 'r',
        solid("samples"@) && lacks("samples"@, '=') && "samples"@.len() == 7,
        solid("flags"@) && lacks("flags"@, '=') && "flags"@.len() == 5,
        "stride"@.len() == 6,
        " dim="@ == seq![' '] + "dim"@ + seq!['='],
        " ret="@ == seq![' '] + "ret"@ + seq!['='],
        " samples="@ == seq![' '] + "samples"@ + seq!['='],
        " flags="@ == seq![' '] + "flags"@ + seq!['='],
{
    reveal_strlit("dim");
    reveal_strlit("ret");
    reveal_strlit("samples");
    reveal_strlit("flags");
    reveal_strlit("stride");
    reveal_strlit(" dim=");
    reveal_strlit(" ret=");
    reveal_strlit(" samples=");
    reveal_strlit(" flags=");
    assert(" dim="@ =~= seq![' '] + "dim"@ + seq!['=']);
    assert(" ret="@ =~= seq![' '] + "ret"@ + seq!['=']);
    assert(" samples="@ =~= seq![' '] + "samples"@ + seq!['=']);
    assert(" flags="@ =~= seq![' '] + "flags"@ + seq!['=']);
}

/// What the tags of a declaration say.
proof fn lemma_binding_tags(b: BindingModel)
    ensures
        good_tags(binding_tags(b)),
        notes(binding_tags(b)) == shape_notes(b) + samples_note(b) + flags_note(
            b.flags,
            implied_flags(b.input_type, b.return_type),
        ),
        lookup(binding_tags(b), "dim"@) == if wants_dim(b) {
            Some(dec_text(b.dimension as nat))
        } else {
            None
        },
        lookup(binding_tags(b), "ret"@) == if wants_ret(b) {
            Some(dec_text(b.return_type as nat))
        } else {
            None
        },
        lookup(binding_tags(b), "samples"@) == if wants_samples(b) {
            Some(dec_text(b.num_samples as nat))
        } else {
            None
        },
        lookup(binding_tags(b), "stride"@) is None,
        lookup(binding_tags(b), "flags"@) == if wants_flags(b) {
            Some(bind_flags_text(b.flags))
        } else {
            None
        },
{
    let p0 = Seq::<(Seq<char>, Seq<char>)>::empty();
    let (d, r) = (dec_text(b.dimension as nat), dec_text(b.return_type as nat));
    let (s, f) = (dec_text(b.num_samples as nat), bind_flags_text(b.flags));
    let p1 = and_tag(p0, wants_dim(b), "dim"@, d);
    let p2 = and_tag(p1, wants_ret(b), "ret"@, r);
    let p3 = and_tag(p2, wants_samples(b), "samples"@, s);
    lemma_keys();
    lemma_number_solid(b.dimension as nat);
    lemma_number_solid(b.return_type as nat);
    lemma_number_solid(b.num_samples as nat);
    lemma_bind_flags_solid(b.flags);
    lemma_and_tag(p0, wants_dim(b), "dim"@, d);
    lemma_and_tag(p1, wants_ret(b), "ret"@, r);
    lemma_and_tag(p2, wants_samples(b), "samples"@, s);
    lemma_and_tag(p3, wants_flags(b), "flags"@, f);
    let e = Seq::<char>::empty();
    assert(notes(p0) =~= e);
    let dn = dec_note(" dim="@, b.dimension as nat, usual_dim(b) as nat);
    let rn = dec_note(" ret="@, b.return_type as nat, usual_ret(b) as nat);
    assert(e + dn =~= dn);
    if is_texture(b.input_type) {
        assert(e + e =~= e);
        assert(shape_notes(b) =~= e);
    } else {
        assert(shape_notes(b) == dn + rn);
    }
    assert(notes(p2) =~= shape_notes(b));
    assert(notes(p3) =~= shape_notes(b) + samples_note(b));
}

/// The declaration of a binding, in its parts.
proof fn lemma_binding_shape(
    spec: Seq<char>,
    name: Seq<char>,
    class: char,
    slot: Seq<char>,
    count: Seq<char>,
    a: Seq<char>,
    b: Seq<char>,
    c: Seq<char>,
)
    ensures
        spec + " "@ + name + " : register("@ + seq![class] + slot + ")"@ + count + a + b + c
            + ";\n"@ == (spec + (seq![' '] + name) + (seq![' '] + seq![':']) + (seq![' '] + (
        "register("@ + (seq![class] + slot + (seq![')'] + count)))) + (a + b + c)).push(';').push(
            '\n',
        ),
{
    reveal_strlit(" ");
    reveal_strlit(" : register(");
    reveal_strlit("register(");
    reveal_strlit(")");
    reveal_strlit(";\n");
    assert(" : register("@ =~= seq![' ', ':', ' '] + "register("@);
    assert(spec + " "@ + name + " : register("@ + seq![class] + slot + ")"@ + count + a + b + c
        + ";\n"@ =~= (spec + (seq![' '] + name) + (seq![' '] + seq![':']) + (seq![' '] + (
    "register("@ + (seq![class] + slot + (seq![')'] + count)))) + (a + b + c)).push(';').push(
        '\n',
    ));
}

/// Trimming takes off the line break, and no more.
proof fn lemma_trimmed_line(s: Seq<char>)
    requires
        s.len() > 0,
        !is_white(s[0]),
    ensures
        without_semicolon(trim(s.push(';').push('\n'))) == s,
{
    let t = s.push(';').push('\n');
    assert(t[0] == s[0]);
    assert(trim_start(t) == t);
    reveal_with_fuel(trim_end, 2);
    assert(t.drop_last() =~= s.push(';'));
    assert(trim_end(s.push(';')) == s.push(';'));
    assert(s.push(';').drop_last() =~= s);
}

/// The words of a declaration.
pub open spec fn binding_words(b: BindingModel, spec: Seq<char>, class: char) -> Seq<Seq<char>> {
    with_tags(
        seq![spec, b.name, seq![':'], register_text(class, b.bind_point, b.bind_count)],
        binding_tags(b),
    )
}

/// The declaration is taken apart into its words.
proof fn lemma_binding_words(b: BindingModel, cs: Seq<CBufferModel>)
    requires
        binding_fits(b, cs),
    ensures
        binding_text(b, cs) is Some,
        ({
            let (spec, class) = typespec(b, cs)->0;
            words(without_semicolon(trim(binding_text(b, cs)->0))) == binding_words(b, spec, class)
        }),
{
    lemma_typespec(b, cs);
    let (spec, class) = typespec(b, cs)->0;
    let reg = register_text(class, b.bind_point, b.bind_count);
    let base = seq![spec, b.name, seq![':'], reg];
    let ps = binding_tags(b);
    let ws = binding_words(b, spec, class);
    lemma_register(class, b.bind_point, b.bind_count);
    lemma_binding_tags(b);
    lemma_tagged_line(base, ps);
    assert(solid(seq![':']));
    assert forall|i: int| 0 <= i < ws.len() implies solid(#[trigger] ws[i]) by {
        if i >= 4 {
            assert(ws[i] == tagged(ps[i - 4].0, ps[i - 4].1));
        } else if i == 0 {
            assert(ws[i] == spec);
        } else if i == 1 {
            assert(ws[i] == b.name);
        } else if i == 2 {
            assert(ws[i] == seq![':']);
        } else {
            assert(ws[i] == reg);
        }
    }
    let n = ws.len() as int;
    lemma_words_spaced(ws, n);
    assert(ws.take(n) =~= ws);
    let line = spaced(ws, n);
    reveal_with_fuel(spaced, 5);
    assert(spaced(base, 4) == spec + (seq![' '] + b.name) + (seq![' '] + seq![':']) + (seq![' ']
        + reg));
    lemma_binding_shape(
        spec,
        b.name,
        class,
        dec_text(b.bind_point as nat),
        count_note(b.bind_count),
        shape_notes(b),
        samples_note(b),
        flags_note(b.flags, implied_flags(b.input_type, b.return_type)),
    );
    assert(binding_text(b, cs) == Some(line.push(';').push('\n')));
    assert(line[0] == spec[0]);
    lemma_trimmed_line(line);
}

/// The value of a key among the words of a declaration.
proof fn lemma_binding_key(b: BindingModel, spec: Seq<char>, class: char, key: Seq<char>)
    requires
        class == 'b' || class == 't' || class == 's' || class == 'u',
    ensures
        key_from(binding_words(b, spec, class), 2, key) == lookup(binding_tags(b), key),
{
    let reg = register_text(class, b.bind_point, b.bind_count);
    let base = seq![spec, b.name, seq![':'], reg];
    let ps = binding_tags(b);
    lemma_register(class, b.bind_point, b.bind_count);
    lemma_binding_tags(b);
    assert forall|i: int| 2 <= i < base.len() implies lacks(#[trigger] base[i], '=') by {
        if i == 2 {
            assert(base[i] == seq![':']);
        } else {
            assert(base[i] == reg);
        }
    }
    let n = (4 + ps.len()) as int;
    lemma_find(base, ps, 2, n, key);
    assert(ps.take(ps.len() as int) =~= ps);
}

/// The declaration of a binding in the HLSL form reads back as the binding, all of
/// it. Left out are names that are no word, textures whose dimension or return type
/// has no name, structured buffers with a stride, which the rest of the text tells,
/// and those with a counter, which are declared like the others.
#[verifier::rlimit(60)]
pub proof fn binding_reads_back(b: BindingModel, cs: Seq<CBufferModel>)
    requires
        binding_fits(b, cs),
    ensures
        binding_text(b, cs) is Some,
        read_binding(trim(binding_text(b, cs)->0)) == Some(b),
{
    lemma_typespec(b, cs);
    lemma_binding_words(b, cs);
    let (spec, class) = typespec(b, cs)->0;
    let ws = binding_words(b, spec, class);
    let reg = register_text(class, b.bind_point, b.bind_count);
    lemma_register(class, b.bind_point, b.bind_count);
    lemma_binding_tags(b);
    lemma_binding_key(b, spec, class, "dim"@);
    lemma_binding_key(b, spec, class, "ret"@);
    lemma_binding_key(b, spec, class, "samples"@);
    lemma_binding_key(b, spec, class, "stride"@);
    lemma_binding_key(b, spec, class, "flags"@);
    number_reads_back(b.dimension as nat, 10, 0xffff_ffff);
    number_reads_back(b.return_type as nat, 10, 0xffff_ffff);
    number_reads_back(b.num_samples as nat, 10, 0xffff_ffff);
    int_reads_back(b.num_samples as int, 0x7fff_ffff_ffff_ffff);
    bind_flags_read_back(b.flags);
    assert(low_word(b.num_samples as int) == b.num_samples);
    assert(ws[0] == spec && ws[1] == b.name && ws[2] == seq![':'] && ws[3] == reg);
    assert(register_word(ws, 2) == Some(reg)) by {
        reveal_with_fuel(register_word, 3);
        reveal_strlit("register(");
    }
}

} // verus!
