//! What the words of resource definitions in HLSL form stand for.

use vstd::prelude::*;

use crate::chunks::rdef::{RdefModel, TypeModel};
use crate::floats::Spellings;
use crate::grammar::rdef::decode::{
    HlslState, block_binding, block_buffer, element_buffer, find_struct, flags_from, outside_line,
    pack_word, read_binding, read_declarator, read_register_word, read_struct_head, read_typespec,
    read_variable, register_word, resolved_type, struct_type, used_word, without_braces,
    without_semicolon,
};
use crate::grammar::rdef::hlsl::{
    base_names, derived_var_size, dim_names, hlsl_type_text, read_bind_flags, read_flag, read_flags,
    read_packoffset, ret_names, struct_size, type_size,
};
use crate::grammar::tables::{table_name, table_value};
use crate::lines::{lemma_split_once_concat, split, split_once, trim, words};
use crate::meaning::keys::{lemma_value_from, silent_from, tells_from};
use crate::numerals::{
    dec_text, hex_text, int_reads_back, int_text, lemma_number_lacks, number_reads_back,
};
use crate::roundtrip::annotations::{
    dimension_names_read_back, lemma_no_flags, lemma_split_last, return_names_read_back,
};
use crate::roundtrip::modifiers::lemma_split_one;
use crate::roundtrip::programs::lemma_not_contains;
use crate::text::{
    lacks, lemma_span_until, lemma_span_until_concat, span_until, starts_with, strip_last,
    strip_prefix,
};

verus! {

// ---------------------------------------------------------------------------
// Types
// ---------------------------------------------------------------------------

/// Whether base types of that number are spelled so.
pub open spec fn is_base(v: u16, name: Seq<char>) -> bool {
    ||| v == 1 && name == "bool"@
    ||| v == 2 && name == "int"@
    ||| v == 3 && name == "float"@
    ||| v == 19 && name == "uint"@
    ||| v == 39 && name == "double"@
}

/// A scalar is spelled as its base type, a vector with its columns behind it, and a
/// matrix with its rows, an x and its columns. An array has its length in brackets
/// behind that. Other base types have no spelling.
pub proof fn types_are_spelled(t: TypeModel, base: Seq<char>)
    ensures
        is_base(t.var_type, base) && t.elements == 0 ==> {
            &&& t.class == 0 ==> hlsl_type_text(t) == Some(base)
            &&& t.class == 1 ==> hlsl_type_text(t) == Some(base + dec_text(t.columns as nat))
            &&& t.class == 2 || t.class == 3 ==> hlsl_type_text(t) == Some(
                base + dec_text(t.rows as nat) + seq!['x'] + dec_text(t.columns as nat),
            )
        },
        is_base(t.var_type, base) && t.elements > 0 && t.class <= 3 ==> hlsl_type_text(t) == Some(
            hlsl_type_text(TypeModel { elements: 0, ..t })->0 + seq!['['] + dec_text(
                t.elements as nat,
            ) + seq![']'],
        ),
        t.class > 3 ==> hlsl_type_text(t) is None,
        t.var_type != 1 && t.var_type != 2 && t.var_type != 3 && t.var_type != 19 && t.var_type
            != 39 ==> hlsl_type_text(t) is None,
{
    reveal_strlit("x");
    reveal_strlit("[");
    reveal_strlit("]");
    assert("x"@ =~= seq!['x']);
    assert("["@ =~= seq!['[']);
    assert("]"@ =~= seq![']']);
    lemma_base_names(t.var_type as u32);
    let u = TypeModel { elements: 0, ..t };
    if is_base(t.var_type, base) {
        let e = Seq::<char>::empty();
        let c = dec_text(t.columns as nat);
        let r = dec_text(t.rows as nat);
        let n = dec_text(t.elements as nat);
        assert(base + e =~= base);
        assert(base + c + e =~= base + c);
        assert(base + r + "x"@ + c + e =~= base + r + "x"@ + c);
        if t.elements > 0 && t.class <= 3 {
            let s = hlsl_type_text(u)->0;
            assert(t.class == 0 || t.class == 1 || t.class == 2 || t.class == 3);
            assert(hlsl_type_text(t)->0 =~= s + seq!['['] + n + seq![']']);
        }
    }
}

proof fn lemma_base_names(v: u32)
    ensures
        table_name(base_names(), v) == (if v == 1 {
            Some("bool"@)
        } else if v == 2 {
            Some("int"@)
        } else if v == 3 {
            Some("float"@)
        } else if v == 19 {
            Some("uint"@)
        } else if v == 39 {
            Some("double"@)
        } else {
            None
        }),
{
    reveal_with_fuel(table_name, 7);
    let t = base_names();
    assert(t.skip(1)[0] == t[1] && t.skip(1).skip(1)[0] == t[2] && t.skip(1).skip(1).skip(1)[0]
        == t[3] && t.skip(1).skip(1).skip(1).skip(1)[0] == t[4]);
}

/// A matrix goes by rows where the declaration says so, and by columns where not; the
/// array length behind the name of what is declared is that of its type.
pub proof fn matrices_go_by_columns(tref: Seq<char>, rm: bool, ss: Seq<TypeModel>, sm5: bool)
    requires
        resolved_type(tref, rm, ss, sm5) is Some,
        ss.len() == 0,
    ensures
        ({
            let t = resolved_type(tref, rm, ss, sm5)->0;
            let u = resolved_type(tref, !rm, ss, sm5);
            &&& t.class == 0 || t.class == 1 || t.class == (if rm {
                2int
            } else {
                3int
            })
            &&& u is Some
            &&& u->0.rows == t.rows
            &&& u->0.columns == t.columns
            &&& u->0.var_type == t.var_type
            &&& u->0.elements == t.elements
        }),
{
}

/// A type that is no struct is named after its spelling without array length, and has
/// four words of nought where shader model five wants them.
pub proof fn plain_types_have_their_names(tref: Seq<char>, rm: bool, sm5: bool)
    requires
        resolved_type(tref, rm, Seq::empty(), sm5) is Some,
    ensures
        ({
            let t = resolved_type(tref, rm, Seq::empty(), sm5)->0;
            &&& t.members.len() == 0
            &&& hlsl_type_text(TypeModel { elements: 0, ..t }) is Some ==> Some(t.name)
                == hlsl_type_text(TypeModel { elements: 0, ..t })
            &&& t.sm5_extra == (if sm5 {
                Some([0u32, 0u32, 0u32, 0u32])
            } else {
                None
            })
        }),
{
    let t = resolved_type(tref, rm, Seq::empty(), sm5)->0;
    let u = TypeModel { elements: 0, ..t };
    let v = TypeModel { name: Seq::empty(), ..u };
    assert(hlsl_type_text(v) == hlsl_type_text(u));
}

/// A name refers to the struct that was declared under it last, whatever its members,
/// and the array length in brackets is that of the reference.
pub proof fn last_structs_count(
    name: Seq<char>,
    n: u16,
    rm: bool,
    ss: Seq<TypeModel>,
    k: int,
    sm5: bool,
)
    requires
        lacks(name, '['),
        n > 0,
        0 <= k < ss.len(),
        ss[k].name == name,
        forall|j: int| k < j < ss.len() ==> (#[trigger] ss[j]).name != name,
    ensures
        resolved_type(name, rm, ss, sm5) == Some(TypeModel { elements: 0, ..ss[k] }),
        resolved_type(name + seq!['['] + dec_text(n as nat) + seq![']'], rm, ss, sm5) == Some(
            TypeModel { elements: n, ..ss[k] },
        ),
{
    lemma_last_struct(ss, name, k, ss.len() as int);
    lemma_unsplit(name, '[');
    let d = dec_text(n as nat);
    lemma_not_contains(name, '[');
    assert(name + seq!['['] + d + seq![']'] =~= name + seq!['['] + d.push(']'));
    lemma_split_once_concat(name, '[', d.push(']'));
    assert(d.push(']').drop_last() =~= d);
    number_reads_back(n as nat, 10, 0xffff);
}

proof fn lemma_last_struct(ss: Seq<TypeModel>, name: Seq<char>, k: int, n: int)
    requires
        0 <= k < n <= ss.len(),
        ss[k].name == name,
        forall|j: int| k < j < n ==> (#[trigger] ss[j]).name != name,
    ensures
        find_struct(ss, n, name) == Some(ss[k]),
    decreases n,
{
    if k < n - 1 {
        assert(ss[n - 1].name != name);
        lemma_last_struct(ss, name, k, n - 1);
    }
}

// ---------------------------------------------------------------------------
// Resources
// ---------------------------------------------------------------------------

/// The dimensions of typed resources and their numbers.
pub proof fn dimensions_have_their_numbers()
    ensures
        table_value(dim_names(), "Buffer"@) == Some(1u32),
        table_value(dim_names(), "Texture1D"@) == Some(2u32),
        table_value(dim_names(), "Texture1DArray"@) == Some(3u32),
        table_value(dim_names(), "Texture2D"@) == Some(4u32),
        table_value(dim_names(), "Texture2DArray"@) == Some(5u32),
        table_value(dim_names(), "Texture2DMS"@) == Some(6u32),
        table_value(dim_names(), "Texture2DMSArray"@) == Some(7u32),
        table_value(dim_names(), "Texture3D"@) == Some(8u32),
        table_value(dim_names(), "TextureCube"@) == Some(9u32),
        table_value(dim_names(), "TextureCubeArray"@) == Some(10u32),
{
    let t = dim_names();
    assert(t[0].0 == "Buffer"@ && t[1].0 == "Texture1D"@ && t[2].0 == "Texture1DArray"@ && t[3].0
        == "Texture2D"@ && t[4].0 == "Texture2DArray"@ && t[5].0 == "Texture2DMS"@ && t[6].0
        == "Texture2DMSArray"@ && t[7].0 == "Texture3D"@ && t[8].0 == "TextureCube"@ && t[9].0
        == "TextureCubeArray"@);
    assert(t[0].1 == 1 && t[1].1 == 2 && t[2].1 == 3 && t[3].1 == 4 && t[4].1 == 5 && t[5].1 == 6
        && t[6].1 == 7 && t[7].1 == 8 && t[8].1 == 9 && t[9].1 == 10);
    assert forall|i: int| 0 <= i < 10 implies table_value(t, (#[trigger] t[i]).0) == Some(t[i].1) by {
        lemma_distinct_numbers(t, i);
        dimension_names_read_back(t[i].1, t[i].0);
    }
}

/// The element types of typed resources and their numbers.
pub proof fn element_types_have_their_numbers()
    ensures
        table_value(ret_names(), "unorm4"@) == Some(1u32),
        table_value(ret_names(), "snorm4"@) == Some(2u32),
        table_value(ret_names(), "int4"@) == Some(3u32),
        table_value(ret_names(), "uint4"@) == Some(4u32),
        table_value(ret_names(), "float4"@) == Some(5u32),
        table_value(ret_names(), "mixed"@) == Some(6u32),
        table_value(ret_names(), "double4"@) == Some(7u32),
{
    let t = ret_names();
    assert(t[0].0 == "unorm4"@ && t[1].0 == "snorm4"@ && t[2].0 == "int4"@ && t[3].0 == "uint4"@
        && t[4].0 == "float4"@ && t[5].0 == "mixed"@ && t[6].0 == "double4"@);
    assert(t[0].1 == 1 && t[1].1 == 2 && t[2].1 == 3 && t[3].1 == 4 && t[4].1 == 5 && t[5].1 == 6
        && t[6].1 == 7);
    assert forall|i: int| 0 <= i < 7 implies table_value(t, (#[trigger] t[i]).0) == Some(t[i].1) by {
        lemma_distinct_numbers(t, i);
        return_names_read_back(t[i].1, t[i].0);
    }
}

/// In a table numbered from one on, the name of a number is that of its entry.
proof fn lemma_distinct_numbers(t: crate::grammar::tables::NameTable, i: int)
    requires
        0 <= i < t.len(),
        forall|j: int| 0 <= j < t.len() ==> (#[trigger] t[j]).1 == t[0].1 + j,
    ensures
        table_name(t, t[i].1) == Some(t[i].0),
    decreases t.len(),
{
    if i > 0 {
        let u = t.skip(1);
        assert(u[0] == t[1]);
        assert forall|j: int| 0 <= j < u.len() implies (#[trigger] u[j]).1 == u[0].1 + j by {
            assert(u[j] == t[j + 1]);
        }
        assert(u[i - 1] == t[i]);
        assert(t[i].1 != t[0].1);
        lemma_distinct_numbers(u, i - 1);
    }
}

/// Resources without an element dimension and their kinds: only a structured buffer
/// for writing asks which register it stands in.
pub proof fn plain_resources_have_their_kinds(class: char)
    ensures
        read_typespec("cbuffer"@, class) == Some((0u32, 0u32, 0u32)),
        read_typespec("tbuffer"@, class) == Some((1u32, 0u32, 0u32)),
        read_typespec("SamplerState"@, class) == Some((3u32, 0u32, 0u32)),
        read_typespec("ByteAddressBuffer"@, class) == Some((7u32, 0u32, 0u32)),
        read_typespec("RWByteAddressBuffer"@, class) == Some((8u32, 0u32, 0u32)),
{
    reveal_strlit("cbuffer");
    reveal_strlit("tbuffer");
    reveal_strlit("SamplerState");
    reveal_strlit("StructuredBuffer");
    reveal_strlit("RWStructuredBuffer");
    reveal_strlit("ByteAddressBuffer");
    reveal_strlit("RWByteAddressBuffer");
    assert("cbuffer"@[0] == 'c' && "tbuffer"@[0] == 't');
    assert("ByteAddressBuffer"@[0] == 'B' && "RWStructuredBuffer"@[2] == 'S'
        && "RWByteAddressBuffer"@[2] == 'B');
    lemma_unsplit("cbuffer"@, '<');
    lemma_unsplit("tbuffer"@, '<');
    lemma_unsplit("SamplerState"@, '<');
    lemma_unsplit("ByteAddressBuffer"@, '<');
    lemma_unsplit("RWByteAddressBuffer"@, '<');
}

proof fn lemma_unsplit(s: Seq<char>, sep: char)
    requires
        lacks(s, sep),
    ensures
        split_once(s, sep) is None,
{
    lemma_span_until(s, sep, sep, sep);
}

/// Structured buffers, whatever their elements, and their kinds.
pub proof fn structured_buffers_have_their_kinds(elem: Seq<char>, class: char)
    ensures
        read_typespec("StructuredBuffer"@ + seq!['<'] + elem + seq!['>'], class) == Some(
            (5u32, 0u32, 0u32),
        ),
        read_typespec("RWStructuredBuffer"@ + seq!['<'] + elem + seq!['>'], 'u') == Some(
            (6u32, 0u32, 0u32),
        ),
        read_typespec("AppendStructuredBuffer"@ + seq!['<'] + elem + seq!['>'], class) == Some(
            (9u32, 0u32, 0u32),
        ),
        read_typespec("ConsumeStructuredBuffer"@ + seq!['<'] + elem + seq!['>'], class) == Some(
            (10u32, 0u32, 0u32),
        ),
{
    reveal_strlit("cbuffer");
    reveal_strlit("tbuffer");
    reveal_strlit("SamplerState");
    reveal_strlit("StructuredBuffer");
    reveal_strlit("RWStructuredBuffer");
    reveal_strlit("ByteAddressBuffer");
    reveal_strlit("RWByteAddressBuffer");
    reveal_strlit("AppendStructuredBuffer");
    reveal_strlit("ConsumeStructuredBuffer");
    lemma_element("StructuredBuffer"@, elem);
    lemma_element("RWStructuredBuffer"@, elem);
    lemma_element("AppendStructuredBuffer"@, elem);
    lemma_element("ConsumeStructuredBuffer"@, elem);
}

proof fn lemma_element(stem: Seq<char>, elem: Seq<char>)
    requires
        lacks(stem, '<'),
    ensures
        ({
            let s = stem + seq!['<'] + elem + seq!['>'];
            &&& split_once(s, '<') == Some((stem, elem.push('>')))
            &&& strip_last(elem.push('>'), '>') == Some(elem)
        }),
{
    lemma_not_contains(stem, '<');
    assert(stem + seq!['<'] + elem + seq!['>'] =~= stem + seq!['<'] + elem.push('>'));
    lemma_split_once_concat(stem, '<', elem.push('>'));
    assert(elem.push('>').drop_last() =~= elem);
}

/// A typed resource has the dimension and the element type that its name and the name
/// in brackets stand for; it is a texture, or with RW in front a view for writing.
pub proof fn typed_resources_have_their_kinds(
    name: Seq<char>,
    dim: u32,
    elem: Seq<char>,
    ret: u32,
    class: char,
)
    requires
        table_value(dim_names(), name) == Some(dim),
        table_value(ret_names(), elem) == Some(ret),
    ensures
        read_typespec(name + seq!['<'] + elem + seq!['>'], class) == Some((2u32, dim, ret)),
        read_typespec(seq!['R', 'W'] + name + seq!['<'] + elem + seq!['>'], class) == Some(
            (4u32, dim, ret),
        ),
{
    lemma_plain_names();
    lemma_is_dimension(name, dim);
    let w = seq!['R', 'W'] + name;
    lemma_element(name, elem);
    lemma_element(w, elem);
    reveal_strlit("RW");
    assert("RW"@ =~= seq!['R', 'W']);
    assert(w.take(2) =~= "RW"@);
    assert(w.skip(2) =~= name);
    assert(!starts_with(name, "RW"@)) by {
        if starts_with(name, "RW"@) {
            assert(name.take(2)[0] == name[0]);
        }
    }
    assert(w[0] == 'R' && w[2] == name[0]);
    assert(seq!['R', 'W'] + name + seq!['<'] + elem + seq!['>'] =~= w + seq!['<'] + elem + seq![
        '>',
    ]);
}

/// What tells the names of resources without a dimension from those with one.
proof fn lemma_plain_names()
    ensures
        "cbuffer"@[0] == 'c',
        "tbuffer"@[0] == 't',
        "SamplerState"@[0] == 'S',
        "StructuredBuffer"@[0] == 'S',
        "RWStructuredBuffer"@[0] == 'R',
        "RWStructuredBuffer"@[2] == 'S',
        "ByteAddressBuffer"@[0] == 'B',
        "ByteAddressBuffer"@[1] == 'y',
        "RWByteAddressBuffer"@[0] == 'R',
        "RWByteAddressBuffer"@[2] == 'B',
        "RWByteAddressBuffer"@[3] == 'y',
        "AppendStructuredBuffer"@[0] == 'A',
        "ConsumeStructuredBuffer"@[0] == 'C',
{
    reveal_strlit("cbuffer");
    reveal_strlit("tbuffer");
    reveal_strlit("SamplerState");
    reveal_strlit("StructuredBuffer");
    reveal_strlit("RWStructuredBuffer");
    reveal_strlit("ByteAddressBuffer");
    reveal_strlit("RWByteAddressBuffer");
    reveal_strlit("AppendStructuredBuffer");
    reveal_strlit("ConsumeStructuredBuffer");
}

proof fn lemma_is_dimension(name: Seq<char>, dim: u32)
    requires
        table_value(dim_names(), name) == Some(dim),
    ensures
        lacks(name, '<'),
        name.len() >= 6,
        name[0] == 'T' || (name[0] == 'B' && name[1] == 'u'),
{
    crate::roundtrip::tables::lemma_table_value_index(dim_names(), name);
    let i = choose|i: int|
        0 <= i < dim_names().len() && (#[trigger] dim_names()[i]).0 == name && dim_names()[i].1
            == dim;
    reveal_strlit("Buffer");
    reveal_strlit("Texture1D");
    reveal_strlit("Texture1DArray");
    reveal_strlit("Texture2D");
    reveal_strlit("Texture2DArray");
    reveal_strlit("Texture2DMS");
    reveal_strlit("Texture2DMSArray");
    reveal_strlit("Texture3D");
    reveal_strlit("TextureCube");
    reveal_strlit("TextureCubeArray");
    assert(i == 0 || i == 1 || i == 2 || i == 3 || i == 4 || i == 5 || i == 6 || i == 7 || i == 8
        || i == 9);
}

/// The names of a binding's flags and their bits; flags joined by bars are those of
/// either side.
pub proof fn binding_flags_have_their_bits(s: Seq<char>, t: Seq<char>)
    requires
        lacks(t, '|'),
    ensures
        read_bind_flags("userPacked"@) == Some(1u32),
        read_bind_flags("comparisonSampler"@) == Some(2u32),
        read_bind_flags("texComp0"@) == Some(4u32),
        read_bind_flags("texComp1"@) == Some(8u32),
        read_bind_flags("unused"@) == Some(16u32),
        read_bind_flags(s) is Some && read_bind_flags(t) is Some ==> read_bind_flags(
            s + seq!['|'] + t,
        ) == Some(read_bind_flags(s)->0 | read_bind_flags(t)->0),
{
    reveal_strlit("userPacked");
    reveal_strlit("comparisonSampler");
    reveal_strlit("texComp0");
    reveal_strlit("texComp1");
    reveal_strlit("unused");
    assert("userPacked"@[1] == 's' && "unused"@[1] == 'n');
    assert("texComp0"@[7] == '0' && "texComp1"@[7] == '1');
    lemma_one_flag("userPacked"@);
    lemma_one_flag("comparisonSampler"@);
    lemma_one_flag("texComp0"@);
    lemma_one_flag("texComp1"@);
    lemma_one_flag("unused"@);
    lemma_one_flag(t);
    lemma_split_last(s, '|', t);
    let ps = split(s, '|');
    lemma_flags_prefix(ps, t, ps.len() as int);
}

proof fn lemma_one_flag(t: Seq<char>)
    requires
        lacks(t, '|'),
    ensures
        read_bind_flags(t) == read_flag(t),
{
    lemma_split_one(t, '|');
    reveal_with_fuel(read_flags, 2);
    match read_flag(t) {
        Some(b) => lemma_no_flags(b),
        None => {},
    }
}

proof fn lemma_flags_prefix(ps: Seq<Seq<char>>, t: Seq<char>, n: int)
    requires
        0 <= n <= ps.len(),
    ensures
        read_flags(ps.push(t), n) == read_flags(ps, n),
    decreases n,
{
    if n > 0 {
        lemma_flags_prefix(ps, t, n - 1);
    }
}

/// A register is a class and a number in brackets; the number of registers is the one
/// in square brackets behind it, or one.
pub proof fn registers_have_their_numbers(class: char, n: u32, count: u32)
    requires
        class <= '\u{7f}',
        class != ')',
    ensures
        read_register_word("register("@ + seq![class] + dec_text(n as nat) + seq![')']) == Some(
            (class, n, 1u32),
        ),
        read_register_word(
            "register("@ + seq![class] + dec_text(n as nat) + seq![')', '['] + dec_text(
                count as nat,
            ) + seq![']'],
        ) == Some((class, n, count)),
{
    lemma_register(class, n, Seq::empty());
    let c = dec_text(count as nat);
    let after = seq!['['] + c + seq![']'];
    lemma_register(class, n, after);
    number_reads_back(count as nat, 10, 0xffff_ffff);
    reveal_strlit("[");
    assert(after.take(1) =~= "["@);
    assert(after.skip(1) =~= c.push(']'));
    assert(c.push(']').drop_last() =~= c);
    let d = dec_text(n as nat);
    assert("register("@ + seq![class] + d + seq![')'] =~= "register("@ + (seq![class] + d + seq![
        ')',
    ] + Seq::<char>::empty()));
    assert("register("@ + seq![class] + d + seq![')', '['] + c + seq![']'] =~= "register("@ + (
    seq![class] + d + seq![')'] + after));
    assert(strip_prefix(Seq::<char>::empty(), "["@) is None);
}

proof fn lemma_register(class: char, n: u32, after: Seq<char>)
    requires
        class <= '\u{7f}',
        class != ')',
    ensures
        ({
            let r = seq![class] + dec_text(n as nat) + seq![')'] + after;
            let k = span_until(r, ')', ')', ')') as int;
            &&& strip_prefix("register("@ + r, "register("@) == Some(r)
            &&& k < r.len()
            &&& crate::grammar::rdef::decode::read_register_name(r.take(k)) == Some((class, n))
            &&& r.skip(k + 1) == after
        }),
{
    let d = dec_text(n as nat);
    let name = seq![class] + d;
    let r = name + seq![')'] + after;
    lemma_number_lacks(n as nat, 10, ')');
    number_reads_back(n as nat, 10, 0xffff_ffff);
    assert(name.skip(1) =~= d);
    assert forall|i: int| 0 <= i < name.len() implies #[trigger] name[i] != ')' by {
        if i > 0 {
            assert(d[i - 1] != ')');
        }
    }
    assert(r =~= name + (seq![')'] + after));
    lemma_span_until_concat(name, seq![')'] + after, ')', ')', ')');
    assert(r.skip(name.len() as int + 1) =~= after);
    let p = "register("@;
    assert((p + r).take(p.len() as int) =~= p);
    assert((p + r).skip(p.len() as int) =~= r);
}

/// What a binding has that its line does not say: a structured buffer has one
/// dimension and mixed elements, a texture no samples, and a texture with elements
/// the flags of four components.
pub proof fn bindings_have_their_defaults(line: Seq<char>)
    requires
        read_binding(line) is Some,
    ensures
        ({
            let ws = words(without_semicolon(line));
            let b = read_binding(line)->0;
            let st = b.input_type == 5 || b.input_type == 6 || b.input_type == 9 || b.input_type
                == 10 || b.input_type == 11;
            let texture = b.input_type == 2 || b.input_type == 4;
            let rw = read_register_word(register_word(ws, 2)->0)->0;
            let spec = read_typespec(ws[0], rw.0)->0;
            &&& b.name == ws[1]
            &&& b.input_type == spec.0
            &&& b.bind_point == rw.1
            &&& b.bind_count == rw.2
            &&& silent_from(ws, 2, "dim"@) ==> b.dimension == (if st {
                1
            } else {
                spec.1
            })
            &&& silent_from(ws, 2, "ret"@) ==> b.return_type == (if st {
                6
            } else {
                spec.2
            })
            &&& silent_from(ws, 2, "stride"@) && st ==> b.num_samples == 0
            &&& silent_from(ws, 2, "samples"@) && !st ==> b.num_samples == (if texture {
                0xFFFF_FFFFu32
            } else {
                0
            })
            &&& silent_from(ws, 2, "flags"@) ==> b.flags == (if texture && b.return_type != 0 {
                12u32
            } else {
                0
            })
        }),
{
    let ws = words(without_semicolon(line));
    lemma_binding_keys();
    lemma_value_from(ws, 2, "dim"@, Seq::empty());
    lemma_value_from(ws, 2, "ret"@, Seq::empty());
    lemma_value_from(ws, 2, "stride"@, Seq::empty());
    lemma_value_from(ws, 2, "samples"@, Seq::empty());
    lemma_value_from(ws, 2, "flags"@, Seq::empty());
}

proof fn lemma_binding_keys()
    ensures
        lacks("dim"@, '='),
        lacks("ret"@, '='),
        lacks("stride"@, '='),
        lacks("samples"@, '='),
        lacks("flags"@, '='),
{
    reveal_strlit("dim");
    reveal_strlit("ret");
    reveal_strlit("stride");
    reveal_strlit("samples");
    reveal_strlit("flags");
}

/// What the line of a binding says in decimal under the keys dim, ret, stride and
/// samples, and in names under flags.
pub proof fn bindings_have_what_they_say(line: Seq<char>, n: u32, f: Seq<char>)
    requires
        read_binding(line) is Some,
    ensures
        ({
            let ws = words(without_semicolon(line));
            let b = read_binding(line)->0;
            let st = b.input_type == 5 || b.input_type == 6 || b.input_type == 9 || b.input_type
                == 10 || b.input_type == 11;
            let texture = b.input_type == 2 || b.input_type == 4;
            let d = dec_text(n as nat);
            &&& tells_from(ws, 2, "dim"@, d) ==> b.dimension == n
            &&& tells_from(ws, 2, "ret"@, d) ==> b.return_type == n
            &&& tells_from(ws, 2, "stride"@, d) && st ==> b.num_samples == n
            &&& tells_from(ws, 2, "samples"@, d) && texture ==> b.num_samples == n
            &&& tells_from(ws, 2, "flags"@, f) ==> Some(b.flags) == read_bind_flags(f)
        }),
{
    let ws = words(without_semicolon(line));
    let d = dec_text(n as nat);
    number_reads_back(n as nat, 10, 0xffff_ffff);
    lemma_binding_keys();
    lemma_value_from(ws, 2, "dim"@, d);
    lemma_value_from(ws, 2, "ret"@, d);
    lemma_value_from(ws, 2, "stride"@, d);
    lemma_value_from(ws, 2, "samples"@, d);
    lemma_value_from(ws, 2, "flags"@, f);
}

/// The samples of what is neither a texture nor a structured buffer may be negative:
/// their word is the two's complement.
pub proof fn samples_may_be_negative(line: Seq<char>, i: int)
    requires
        read_binding(line) is Some,
        -0x8000_0000 <= i <= 0xffff_ffff,
    ensures
        ({
            let ws = words(without_semicolon(line));
            let b = read_binding(line)->0;
            let k = b.input_type;
            let plain = k == 0 || k == 1 || k == 3 || k == 7 || k == 8;
            tells_from(ws, 2, "samples"@, int_text(i)) && plain ==> b.num_samples == (if i < 0 {
                i + 0x1_0000_0000
            } else {
                i
            })
        }),
{
    let ws = words(without_semicolon(line));
    lemma_binding_keys();
    int_reads_back(i, 0x7fff_ffff_ffff_ffff);
    lemma_value_from(ws, 2, "samples"@, int_text(i));
}

/// The buffer of a structured binding holds one element, which is used and begins at
/// nought, and both are as large as the type of the element.
pub proof fn structured_bindings_have_their_buffers(
    name: Seq<char>,
    stem: Seq<char>,
    elem: Seq<char>,
    ss: Seq<TypeModel>,
    sm5: bool,
)
    requires
        lacks(stem, '<'),
        resolved_type(elem, false, ss, sm5) is Some,
        type_size(resolved_type(elem, false, ss, sm5)->0) <= 0xffff_ffff,
    ensures
        ({
            let t = resolved_type(elem, false, ss, sm5)->0;
            let r = element_buffer(name, stem + seq!['<'] + elem + seq!['>'], ss, sm5);
            let c = r->0;
            let v = c.variables[0];
            &&& r is Some
            &&& c.name == name
            &&& c.size == type_size(t)
            &&& c.flags == 0
            &&& c.cb_type == 3
            &&& c.variables.len() == 1
            &&& v.name == "$Element"@
            &&& v.offset == 0
            &&& v.size == type_size(t)
            &&& v.flags == 2
            &&& v.var_type == t
            &&& v.default_value.len() == 0
            &&& v.texture_start == (if sm5 {
                Some(0xFFFF_FFFFu32)
            } else {
                None
            })
            &&& v.sampler_start == v.texture_start
            &&& v.texture_size == (if sm5 {
                Some(0u32)
            } else {
                None
            })
            &&& v.sampler_size == v.texture_size
        }),
{
    lemma_element(stem, elem);
}

// ---------------------------------------------------------------------------
// Variables
// ---------------------------------------------------------------------------

/// A variable begins where its packoffset says, has the size and the flags that its
/// line gives, the size of its type where it gives none, and no slots where shader
/// model five wants some and it names none.
pub proof fn variables_have_what_they_say(
    line: Seq<char>,
    ss: Seq<TypeModel>,
    sm5: bool,
    ft: Spellings,
    n: u32,
    p: Seq<char>,
)
    requires
        read_variable(line, ss, sm5, ft) is Some,
        lacks(p, ')'),
    ensures
        ({
            let ws = words(without_semicolon(line));
            let d = read_declarator(ws)->0;
            let from = d.next + 2;
            let v = read_variable(line, ss, sm5, ft)->0;
            &&& v.name == d.name
            &&& ws[d.next + 1] == "packoffset("@ + p + seq![')'] ==> Some(v.offset)
                == read_packoffset(p)
            &&& tells_from(ws, from, "size"@, dec_text(n as nat)) ==> v.size == n
            &&& silent_from(ws, from, "size"@) ==> Some(v.size as nat) == derived_var_size(
                v.var_type,
            )
            &&& tells_from(ws, from, "vflags"@, hex_text(n as nat)) ==> v.flags == n
            &&& silent_from(ws, from, "tex"@) ==> v.texture_start == (if sm5 {
                Some(0xFFFF_FFFFu32)
            } else {
                None
            }) && v.texture_size == (if sm5 {
                Some(0u32)
            } else {
                None
            })
            &&& silent_from(ws, from, "samp"@) ==> v.sampler_start == (if sm5 {
                Some(0xFFFF_FFFFu32)
            } else {
                None
            }) && v.sampler_size == (if sm5 {
                Some(0u32)
            } else {
                None
            })
        }),
{
    let ws = words(without_semicolon(line));
    let d = read_declarator(ws)->0;
    let from = d.next + 2;
    reveal_strlit("size");
    reveal_strlit("vflags");
    reveal_strlit("tex");
    reveal_strlit("samp");
    number_reads_back(n as nat, 10, 0xffff_ffff);
    number_reads_back(n as nat, 16, 0xffff_ffff);
    lemma_value_from(ws, from, "size"@, dec_text(n as nat));
    lemma_value_from(ws, from, "vflags"@, hex_text(n as nat));
    lemma_value_from(ws, from, "tex"@, Seq::empty());
    lemma_value_from(ws, from, "samp"@, Seq::empty());
    if ws[d.next + 1] == "packoffset("@ + p + seq![')'] {
        lemma_pack_word(p);
    }
}

proof fn lemma_pack_word(p: Seq<char>)
    requires
        lacks(p, ')'),
    ensures
        pack_word("packoffset("@ + p + seq![')']) == Some(p),
{
    let o = "packoffset("@;
    let s = o + p + seq![')'];
    assert(s.take(o.len() as int) =~= o);
    assert(s.skip(o.len() as int) =~= p + seq![')']);
    lemma_span_until_concat(p, seq![')'], ')', ')', ')');
}

/// The last of the words used and unused says whether the variable is used, where its
/// flags are not given as a number.
pub proof fn used_words_are_flags(ws: Seq<Seq<char>>, from: int, k: int)
    requires
        0 <= from <= k < ws.len(),
        silent_from(ws, from, "vflags"@),
        forall|j: int| k < j < ws.len() ==> #[trigger] ws[j] != "used"@ && ws[j] != "unused"@,
    ensures
        ws[k] == "used"@ ==> flags_from(ws, from) == Some(2u32),
        ws[k] == "unused"@ ==> flags_from(ws, from) == Some(0u32),
{
    reveal_strlit("vflags");
    reveal_strlit("used");
    reveal_strlit("unused");
    lemma_value_from(ws, from, "vflags"@, Seq::empty());
    if ws[k] == "used"@ || ws[k] == "unused"@ {
        lemma_used(ws, from, k, ws.len() as int);
    }
}

proof fn lemma_used(ws: Seq<Seq<char>>, from: int, k: int, n: int)
    requires
        0 <= from <= k < n <= ws.len(),
        ws[k] == "used"@ || ws[k] == "unused"@,
        forall|j: int| k < j < n ==> #[trigger] ws[j] != "used"@ && ws[j] != "unused"@,
    ensures
        used_word(ws, from, n) == used_word(ws, from, k + 1),
    decreases n,
{
    if k < n - 1 {
        assert(ws[n - 1] != "used"@ && ws[n - 1] != "unused"@);
        lemma_used(ws, from, k, n - 1);
    }
}

// ---------------------------------------------------------------------------
// Structs and buffers
// ---------------------------------------------------------------------------

/// A struct is of class five and no base type, and has one row and as many columns as
/// its size has words, where its head does not say otherwise.
pub proof fn structs_have_their_defaults(
    rest: Seq<char>,
    ms: Seq<crate::chunks::rdef::MemberModel>,
    sm5: bool,
    n: u16,
)
    requires
        read_struct_head(rest) is Some,
        struct_size(ms) / 4 <= 0xffff,
    ensures
        ({
            let ws = words(trim(without_braces(rest)));
            let t = struct_type(read_struct_head(rest)->0, ms, sm5);
            let d = dec_text(n as nat);
            &&& t.name == ws[0]
            &&& t.members == ms
            &&& t.elements == 0
            &&& silent_from(ws, 1, "class"@) ==> t.class == 5
            &&& silent_from(ws, 1, "vtype"@) ==> t.var_type == 0
            &&& silent_from(ws, 1, "rows"@) ==> t.rows == 1
            &&& silent_from(ws, 1, "cols"@) ==> t.columns == struct_size(ms) / 4
            &&& silent_from(ws, 1, "sm5"@) ==> t.sm5_extra == (if sm5 {
                Some([0u32, 0u32, 0u32, 0u32])
            } else {
                None
            })
            &&& tells_from(ws, 1, "class"@, d) ==> t.class == n
            &&& tells_from(ws, 1, "vtype"@, d) ==> t.var_type == n
            &&& tells_from(ws, 1, "rows"@, d) ==> t.rows == n
            &&& tells_from(ws, 1, "cols"@, d) ==> t.columns == n
        }),
{
    let ws = words(trim(without_braces(rest)));
    let d = dec_text(n as nat);
    reveal_strlit("class");
    reveal_strlit("vtype");
    reveal_strlit("rows");
    reveal_strlit("cols");
    reveal_strlit("sm5");
    number_reads_back(n as nat, 10, 0xffff);
    lemma_value_from(ws, 1, "class"@, d);
    lemma_value_from(ws, 1, "vtype"@, d);
    lemma_value_from(ws, 1, "rows"@, d);
    lemma_value_from(ws, 1, "cols"@, d);
    lemma_value_from(ws, 1, "sm5"@, d);
}

/// A constant buffer with a register is bound there as one constant buffer, without
/// flags where it names none; its own flags are in hexadecimal and its kind in
/// decimal, both nought where they are not given.
pub proof fn buffers_have_what_they_say(ws: Seq<Seq<char>>, n: u32, f: Seq<char>)
    requires
        ws.len() > 0,
    ensures
        match block_binding(ws) {
            Some(Some(b)) => {
                &&& b.name == ws[0]
                &&& b.input_type == 0
                &&& b.return_type == 0
                &&& b.dimension == 0
                &&& b.num_samples == 0
                &&& b.bind_count == 1
                &&& silent_from(ws, 1, "flags"@) ==> b.flags == 0
                &&& tells_from(ws, 1, "flags"@, f) ==> Some(b.flags) == read_bind_flags(f)
            },
            _ => true,
        },
        match block_buffer(ws) {
            Some(c) => {
                &&& c.name == ws[0]
                &&& silent_from(ws, 1, "cbflags"@) ==> c.flags == 0
                &&& tells_from(ws, 1, "cbflags"@, hex_text(n as nat)) ==> c.flags == n
                &&& silent_from(ws, 1, "kind"@) ==> c.cb_type == 0
                &&& tells_from(ws, 1, "kind"@, dec_text(n as nat)) ==> c.cb_type == n
            },
            None => true,
        },
{
    reveal_strlit("flags");
    reveal_strlit("cbflags");
    reveal_strlit("kind");
    number_reads_back(n as nat, 10, 0xffff_ffff);
    number_reads_back(n as nat, 16, 0xffff_ffff);
    lemma_value_from(ws, 1, "flags"@, f);
    lemma_value_from(ws, 1, "cbflags"@, hex_text(n as nat));
    lemma_value_from(ws, 1, "kind"@, dec_text(n as nat));
}

/// The lines at the front say shader model and compile flags in hexadecimal, the
/// creator, and the order of the buffers.
pub proof fn front_lines_have_their_meaning(st: HlslState, n: u32, s: Seq<char>, merged: bool)
    ensures
        outside_line(st, "target "@ + hex_text(n as nat), merged) == Some(
            HlslState { rd: RdefModel { target_version: n, ..st.rd }, ..st },
        ),
        outside_line(st, "flags "@ + hex_text(n as nat), merged) == Some(
            HlslState { rd: RdefModel { compile_flags: n, ..st.rd }, ..st },
        ),
        outside_line(st, "creator "@ + s, merged) == Some(
            HlslState { rd: RdefModel { creator: s, ..st.rd }, ..st },
        ),
        outside_line(st, "cborder "@ + s, merged) == Some(
            HlslState { order: Some(words(s)), ..st },
        ),
{
    let h = hex_text(n as nat);
    lemma_fronts();
    number_reads_back(n as nat, 16, 0xffff_ffff);
    lemma_untrimmed(n);
    lemma_front("target"@, "target "@, h);
    lemma_front("flags"@, "flags "@, h);
    lemma_front("creator"@, "creator "@, s);
    lemma_front("cborder"@, "cborder "@, s);
}

proof fn lemma_fronts()
    ensures
        lacks("target"@, ' ') && "target "@ == "target"@.push(' '),
        lacks("flags"@, ' ') && "flags "@ == "flags"@.push(' '),
        lacks("creator"@, ' ') && "creator "@ == "creator"@.push(' '),
        lacks("cborder"@, ' ') && "cborder "@ == "cborder"@.push(' '),
        "flags"@ != "target"@,
        "creator"@ != "target"@,
        "cborder"@ != "target"@,
        "creator"@ != "flags"@,
        "cborder"@ != "flags"@,
        "creator"@ != "cborder"@,
{
    reveal_strlit("target ");
    reveal_strlit("flags ");
    reveal_strlit("creator ");
    reveal_strlit("cborder ");
    reveal_strlit("target");
    reveal_strlit("flags");
    reveal_strlit("creator");
    reveal_strlit("cborder");
    assert("target "@ =~= "target"@.push(' '));
    assert("flags "@ =~= "flags"@.push(' '));
    assert("creator "@ =~= "creator"@.push(' '));
    assert("cborder "@ =~= "cborder"@.push(' '));
    assert("target"@[0] == 't' && "flags"@[0] == 'f' && "creator"@[0] == 'c');
    assert("creator"@[1] == 'r' && "cborder"@[1] == 'b' && "cborder"@[0] == 'c');
}

proof fn lemma_front(head: Seq<char>, spaced: Seq<char>, rest: Seq<char>)
    requires
        lacks(head, ' '),
        spaced == head.push(' '),
    ensures
        split_once(spaced + rest, ' ') == Some((head, rest)),
{
    lemma_not_contains(head, ' ');
    assert(spaced + rest =~= head + seq![' '] + rest);
    lemma_split_once_concat(head, ' ', rest);
}

proof fn lemma_untrimmed(n: u32)
    ensures
        trim(hex_text(n as nat)) == hex_text(n as nat),
{
    let h = hex_text(n as nat);
    crate::numerals::lemma_number_text(n as nat, 16);
    assert(crate::numerals::is_lower_digit(h[0], 16));
    assert(crate::numerals::is_lower_digit(h.last(), 16));
    crate::lines::lemma_trim_trimmed(h);
}

} // verus!
