//! How resource definitions are written in HLSL form.

use vstd::prelude::*;

use crate::chunks::rdef::{
    BindingModel, CBufferModel, MemberModel, RdefModel, TypeModel, VariableModel,
};
use crate::floats::Spellings;
use crate::grammar::rdef::encode::{
    binding_text, block_text, buffer_order, declarator_text, default_note, element_ref, front_text,
    head_text, hlsl_text, merged_text, names_of_kind, natural_order, order_text, reproduces,
    size_note, slots_note, sm5_note, spaced_names, struct_members_text, struct_text,
    two_section_text, typespec, use_note, variable_text, variables_text,
};
use crate::grammar::rdef::hlsl::{
    bind_flags_text, default_text, derived_var_size, dim_names, hlsl_type_text, natural_or_zero,
    packoffset_text, ret_names, scalar_text, struct_size,
};
use crate::grammar::rdef::kv::{bytes_text, hex4_text};
use crate::grammar::shex::text::signed_value;
use crate::grammar::tables::table_name;
use crate::lines::lemma_split_once_concat;
use crate::numerals::{dec_text, hex_padded, hex_text, int_text};
use crate::roundtrip::defaults::{lemma_split_once_none, lemma_type_text, stem_text};
use crate::roundtrip::programs::lemma_not_contains;
use crate::shex::ir::ProgramModel;

verus! {

// ---------------------------------------------------------------------------
// Bindings
// ---------------------------------------------------------------------------

/// The type that a binding is declared with.
pub open spec fn type_of(b: BindingModel, cs: Seq<CBufferModel>) -> Seq<char> {
    match typespec(b, cs) {
        Some((s, _)) => s,
        None => Seq::empty(),
    }
}

/// The class of the register that a binding is declared in.
pub open spec fn class_of(b: BindingModel, cs: Seq<CBufferModel>) -> char {
    match typespec(b, cs) {
        Some((_, c)) => c,
        None => ' ',
    }
}

/// The classes of registers: constant buffers stand in b, samplers in s, what is read
/// in t and what is written in u.
pub proof fn bindings_have_their_registers(b: BindingModel, cs: Seq<CBufferModel>)
    requires
        typespec(b, cs) is Some,
    ensures
        ({
            let class = class_of(b, cs);
            let k = b.input_type;
            &&& k <= 11
            &&& class == 'b' <==> k == 0
            &&& class == 's' <==> k == 3
            &&& class == 't' <==> k == 1 || k == 2 || k == 5 || k == 7
            &&& class == 'u' <==> k == 4 || k == 6 || 8 <= k <= 11
        }),
{
}

/// What kinds of bindings are declared as.
pub proof fn bindings_have_their_types(b: BindingModel, cs: Seq<CBufferModel>, e: Seq<char>)
    ensures
        ({
            let s = type_of(b, cs);
            let k = b.input_type;
            let dim = table_name(dim_names(), b.dimension);
            let ret = table_name(ret_names(), b.return_type);
            let elem = element_ref(b, cs) == Some(e);
            &&& k == 0 ==> s == "cbuffer"@
            &&& k == 1 ==> s == "tbuffer"@
            &&& k == 3 ==> s == "SamplerState"@
            &&& k == 7 ==> s == "ByteAddressBuffer"@
            &&& k == 8 ==> s == "RWByteAddressBuffer"@
            &&& k == 5 && elem ==> s == "StructuredBuffer"@ + seq!['<'] + e + seq!['>']
            &&& (k == 6 || k == 11) && elem ==> s == "RWStructuredBuffer"@ + seq!['<'] + e + seq![
                '>',
            ]
            &&& k == 9 && elem ==> s == "AppendStructuredBuffer"@ + seq!['<'] + e + seq!['>']
            &&& k == 10 && elem ==> s == "ConsumeStructuredBuffer"@ + seq!['<'] + e + seq!['>']
            &&& k == 2 && dim is Some && ret is Some ==> s == dim->0 + seq!['<'] + ret->0 + seq![
                '>',
            ]
            &&& k == 4 && dim is Some && ret is Some ==> s == seq!['R', 'W'] + dim->0 + seq!['<']
                + ret->0 + seq!['>']
            &&& (k == 2 || k == 4) && dim is None ==> typespec(b, cs) is None
        }),
{
    reveal_strlit("<");
    reveal_strlit(">");
    reveal_strlit("RW");
    assert("<"@ =~= seq!['<']);
    assert(">"@ =~= seq!['>']);
    assert("RW"@ =~= seq!['R', 'W']);
    match table_name(dim_names(), b.dimension) {
        Some(d) => {
            assert(Seq::<char>::empty() + d =~= d);
        },
        None => {},
    }
}

/// The text where it is wanted.
pub open spec fn noted(b: bool, s: Seq<char>) -> Seq<char> {
    if b {
        s
    } else {
        Seq::empty()
    }
}

/// A binding is its type, its name, its register, the number of registers where it is
/// not one, and what its type does not tell of dimension, element type, samples and
/// flags.
pub proof fn bindings_are_declared(b: BindingModel, cs: Seq<CBufferModel>)
    requires
        typespec(b, cs) is Some,
    ensures
        ({
            let k = b.input_type;
            let st = k == 5 || k == 6 || k == 9 || k == 10 || k == 11;
            let texture = k == 2 || k == 4;
            let front = type_of(b, cs) + seq![' '] + b.name + " : register("@ + seq![
                class_of(b, cs),
            ] + dec_text(b.bind_point as nat) + seq![')'];
            let count = noted(
                b.bind_count != 1,
                seq!['['] + dec_text(b.bind_count as nat) + seq![']'],
            );
            let dim = noted(
                !texture && b.dimension != (if st {
                    1u32
                } else {
                    0
                }),
                " dim="@ + dec_text(b.dimension as nat),
            );
            let ret = noted(
                !texture && b.return_type != (if st {
                    6u32
                } else {
                    0
                }),
                " ret="@ + dec_text(b.return_type as nat),
            );
            let samples = noted(
                !st && b.num_samples != (if texture {
                    0xFFFF_FFFFu32
                } else {
                    0
                }),
                " samples="@ + dec_text(b.num_samples as nat),
            );
            let flags = noted(
                b.flags != (if texture && b.return_type != 0 {
                    12u32
                } else {
                    0
                }),
                " flags="@ + bind_flags_text(b.flags),
            );
            binding_text(b, cs) == Some(
                front + count + (dim + ret) + samples + flags + seq![';', '\n'],
            )
        }),
{
    reveal_strlit(" ");
    reveal_strlit(")");
    reveal_strlit("[");
    reveal_strlit("]");
    reveal_strlit(";\n");
    assert(" "@ =~= seq![' ']);
    assert(")"@ =~= seq![')']);
    assert("["@ =~= seq!['[']);
    assert("]"@ =~= seq![']']);
    assert(";\n"@ =~= seq![';', '\n']);
    let e = Seq::<char>::empty();
    assert(e + e =~= e);
}

// ---------------------------------------------------------------------------
// Variables
// ---------------------------------------------------------------------------

/// A declaration is indented by four spaces: the word row_major for a matrix by rows,
/// the type, the name, and the length of an array in brackets behind the name.
pub proof fn declarations_are_written(t: TypeModel, name: Seq<char>)
    requires
        t.members.len() == 0,
        hlsl_type_text(TypeModel { elements: 0, ..t }) is Some,
    ensures
        ({
            let stem = hlsl_type_text(TypeModel { elements: 0, ..t })->0;
            declarator_text(t, name) == Some(
                "    "@ + noted(t.class == 2, "row_major "@) + stem + seq![' '] + name + noted(
                    t.elements > 0,
                    seq!['['] + dec_text(t.elements as nat) + seq![']'],
                ),
            )
        }),
{
    reveal_strlit(" ");
    reveal_strlit("[");
    reveal_strlit("]");
    assert(" "@ =~= seq![' ']);
    assert("["@ =~= seq!['[']);
    assert("]"@ =~= seq![']']);
    let u = TypeModel { elements: 0, ..t };
    let stem = stem_text(t);
    lemma_type_text(t);
    lemma_type_text(u);
    assert(stem_text(u) == stem);
    assert(stem + Seq::<char>::empty() =~= stem);
    let d = dec_text(t.elements as nat);
    if t.elements > 0 {
        assert(stem + ("["@ + d + "]"@) =~= stem + seq!['['] + d.push(']'));
        lemma_not_contains(stem, '[');
        lemma_split_once_concat(stem, '[', d.push(']'));
        assert(d.push(']').drop_last() =~= d);
    } else {
        lemma_split_once_none(stem, '[');
    }
}

/// The flags of a variable are not written where its use tells them; else it is said to
/// be used or unused, and any other flags are written in hexadecimal.
pub proof fn uses_are_noted(flags: u32, used: bool)
    ensures
        used && flags == 2 ==> use_note(flags, used).len() == 0,
        !used && flags == 0 ==> use_note(flags, used).len() == 0,
        !used && flags == 2 ==> use_note(flags, used) == " used"@,
        used && flags == 0 ==> use_note(flags, used) == " unused"@,
        flags != 0 && flags != 2 ==> use_note(flags, used) == " vflags="@ + hex_text(flags as nat),
{
}

/// The size of a variable is written where its type does not give it, its words of
/// shader model five where they are not all nought, and a range of slots where it is
/// not that of no slots.
pub proof fn differences_are_noted(
    v: VariableModel,
    e: [u32; 4],
    key: Seq<char>,
    start: u32,
    size: u32,
)
    ensures
        derived_var_size(v.var_type) == Some(v.size as nat) ==> size_note(v).len() == 0,
        derived_var_size(v.var_type) != Some(v.size as nat) ==> size_note(v) == " size="@
            + dec_text(v.size as nat),
        e[0] == 0 && e[1] == 0 && e[2] == 0 && e[3] == 0 ==> sm5_note(Some(e)).len() == 0,
        e[0] != 0 || e[1] != 0 || e[2] != 0 || e[3] != 0 ==> sm5_note(Some(e)) == " sm5="@
            + hex4_text(e),
        start == 0xFFFF_FFFF && size == 0 ==> slots_note(key, Some(start), Some(size)).len() == 0,
        start != 0xFFFF_FFFF || size != 0 ==> slots_note(key, Some(start), Some(size)) == key
            + int_text(signed_value(start)) + seq![','] + dec_text(size as nat),
        slots_note(key, None, Some(size)).len() == 0,
{
    reveal_strlit(",");
    assert(","@ =~= seq![',']);
}

/// A variable is its declaration, where it stands, and what is to be noted, in that
/// order.
pub proof fn variables_are_declared(
    v: VariableModel,
    p: Option<ProgramModel>,
    reg: Option<u32>,
    ft: Spellings,
    used: bool,
)
    requires
        declarator_text(v.var_type, v.name) is Some,
        packoffset_text(v.offset) is Some,
        used == crate::grammar::rdef::decode::variable_used(p, reg, v.offset, v.size),
    ensures
        variable_text(v, p, reg, ft) == Some(
            declarator_text(v.var_type, v.name)->0 + " : packoffset("@ + packoffset_text(
                v.offset,
            )->0 + seq![')'] + size_note(v) + use_note(v.flags, used) + sm5_note(
                v.var_type.sm5_extra,
            ) + slots_note(" tex="@, v.texture_start, v.texture_size) + slots_note(
                " samp="@,
                v.sampler_start,
                v.sampler_size,
            ) + default_note(v, ft) + seq![';', '\n'],
        ),
{
    reveal_strlit(")");
    reveal_strlit(";\n");
    assert(")"@ =~= seq![')']);
    assert(";\n"@ =~= seq![';', '\n']);
}

/// A default value is an initializer behind an equals sign where it has one, and else
/// its bytes.
pub proof fn defaults_are_noted(v: VariableModel, ft: Spellings)
    ensures
        v.default_value.len() == 0 ==> default_note(v, ft).len() == 0,
        v.default_value.len() > 0 && default_text(v.var_type, v.default_value, ft) is Some
            ==> default_note(v, ft) == " = "@ + default_text(v.var_type, v.default_value, ft)->0,
        v.default_value.len() > 0 && default_text(v.var_type, v.default_value, ft) is None
            ==> default_note(v, ft) == " default="@ + bytes_text(
            v.default_value,
            v.default_value.len() as int,
        ),
{
}

/// Whole numbers are written in decimal, signed or not as their base type is, and a
/// truth value only where it is false, whose word is nought.
pub proof fn scalars_are_written(w: u32, ft: Spellings)
    ensures
        w <= 0x7fff_ffff ==> scalar_text(2, w, ft) == Some(dec_text(w as nat)),
        w >= 0x8000_0000 ==> scalar_text(2, w, ft) == Some(
            seq!['-'] + dec_text((0x1_0000_0000 - w) as nat),
        ),
        scalar_text(19, w, ft) == Some(dec_text(w as nat)),
        scalar_text(1, 0, ft) == Some("false"@),
        w != 0 ==> scalar_text(1, w, ft) is None,
        scalar_text(39, w, ft) is None,
{
    if w >= 0x8000_0000 {
        assert(int_text(signed_value(w)) =~= seq!['-'] + dec_text((0x1_0000_0000 - w) as nat));
    }
}

// ---------------------------------------------------------------------------
// Structs and buffers
// ---------------------------------------------------------------------------

/// A struct is its name, what is not taken for granted of it, and its members; a member
/// says where it begins where that is not the end of the one before it.
pub proof fn structs_are_declared(t: TypeModel, ms: Seq<MemberModel>, m: MemberModel)
    requires
        struct_members_text(t.members, t.members.len() as int) is Some,
        struct_members_text(ms, ms.len() as int) is Some,
        declarator_text(m.member_type, m.name) is Some,
    ensures
        struct_text(t) == Some(
            "struct "@ + t.name + noted(t.class != 5, " class="@ + dec_text(t.class as nat))
                + noted(t.var_type != 0, " vtype="@ + dec_text(t.var_type as nat)) + noted(
                t.rows != 1,
                " rows="@ + dec_text(t.rows as nat),
            ) + noted(
                t.columns != struct_size(t.members) / 4,
                " cols="@ + dec_text(t.columns as nat),
            ) + sm5_note(t.sm5_extra) + " {\n"@ + struct_members_text(
                t.members,
                t.members.len() as int,
            )->0 + "};\n"@,
        ),
        struct_members_text(ms.push(m), ms.len() as int + 1) == Some(
            struct_members_text(ms, ms.len() as int)->0 + (declarator_text(
                m.member_type,
                m.name,
            )->0 + noted(
                m.offset != (if ms.len() == 0 {
                    0
                } else {
                    ms.last().offset + natural_or_zero(ms.last().member_type)
                }),
                " +"@ + dec_text(m.offset as nat),
            ) + sm5_note(m.member_type.sm5_extra) + seq![';', '\n']),
        ),
{
    reveal_strlit(";\n");
    assert(";\n"@ =~= seq![';', '\n']);
    lemma_members_prefix(ms, m, ms.len() as int);
    let u = ms.push(m);
    assert(u[ms.len() as int] == m);
    if ms.len() > 0 {
        assert(u[ms.len() - 1] == ms.last());
    }
}

proof fn lemma_members_prefix(ms: Seq<MemberModel>, m: MemberModel, n: int)
    requires
        0 <= n <= ms.len(),
    ensures
        struct_members_text(ms.push(m), n) == struct_members_text(ms, n),
    decreases n,
{
    if n > 0 {
        lemma_members_prefix(ms, m, n - 1);
        let u = ms.push(m);
        assert(u[n - 1] == ms[n - 1]);
        if n > 1 {
            assert(u[n - 2] == ms[n - 2]);
        }
    }
}

/// A constant buffer is its name, its register where it has one, its flags, its kind
/// and its own flags where they are not nought, and its variables.
pub proof fn buffers_are_declared(
    c: CBufferModel,
    r: u32,
    bind_flags: u32,
    p: Option<ProgramModel>,
    reg: Option<u32>,
    ft: Spellings,
)
    requires
        variables_text(c.variables, p, reg, ft, c.variables.len() as int) is Some,
    ensures
        ({
            let notes = noted(bind_flags != 0, " flags="@ + bind_flags_text(bind_flags));
            let kind = noted(c.cb_type != 0, " kind="@ + dec_text(c.cb_type as nat));
            let own = noted(c.flags != 0, " cbflags="@ + hex_text(c.flags as nat));
            let vs = variables_text(c.variables, p, reg, ft, c.variables.len() as int)->0;
            &&& block_text(c, Some(r), bind_flags, p, reg, ft) == Some(
                "cbuffer "@ + c.name + (" : register(b"@ + dec_text(r as nat) + seq![')']) + notes
                    + kind + own + " {\n"@ + vs + "};\n"@,
            )
            &&& block_text(c, None, bind_flags, p, reg, ft) == Some(
                "cbuffer "@ + c.name + Seq::<char>::empty() + notes + kind + own + " {\n"@ + vs
                    + "};\n"@,
            )
        }),
{
    reveal_strlit(")");
    assert(")"@ =~= seq![')']);
}

/// The order of the buffers is written where it is not that of the bindings: first
/// those of constant buffers, then those of structured buffers.
pub proof fn orders_are_written(rd: RdefModel, bs: Seq<BindingModel>, b: BindingModel)
    ensures
        ({
            let d = buffer_order(rd.constant_buffers);
            &&& natural_order(rd.bindings) == d ==> order_text(rd).len() == 0
            &&& natural_order(rd.bindings) != d ==> order_text(rd) == "cborder"@ + spaced_names(
                d,
                d.len() as int,
            ) + seq!['\n']
        }),
        ({
            let n = bs.len() as int;
            let k = b.input_type;
            let st = k == 5 || k == 6 || k == 9 || k == 10 || k == 11;
            let plain = names_of_kind(bs, true, n);
            let others = names_of_kind(bs, false, n);
            &&& natural_order(bs) == plain + others
            &&& k == 0 ==> natural_order(bs.push(b)) == plain.push(b.name) + others
            &&& st ==> natural_order(bs.push(b)) == plain + others.push(b.name)
            &&& k != 0 && !st ==> natural_order(bs.push(b)) == plain + others
        }),
{
    reveal_strlit("\n");
    assert("\n"@ =~= seq!['\n']);
    let n = bs.len() as int;
    lemma_kind_prefix(bs, b, true, n);
    lemma_kind_prefix(bs, b, false, n);
    assert(bs.push(b)[n] == b);
}

proof fn lemma_kind_prefix(bs: Seq<BindingModel>, b: BindingModel, plain: bool, n: int)
    requires
        0 <= n <= bs.len(),
    ensures
        names_of_kind(bs.push(b), plain, n) == names_of_kind(bs, plain, n),
    decreases n,
{
    if n > 0 {
        lemma_kind_prefix(bs, b, plain, n - 1);
        assert(bs.push(b)[n - 1] == bs[n - 1]);
    }
}

/// The merged form is written where it reads as the same bytes, and the form in two
/// sections where only that does; where neither does, there is none.
pub proof fn merged_forms_are_preferred(rd: RdefModel, p: Option<ProgramModel>, ft: Spellings)
    requires
        front_text(rd) is Some,
    ensures
        ({
            let f = front_text(rd)->0;
            let m = merged_text(rd, p, ft);
            let t = two_section_text(rd, p, ft);
            let merged = m is Some && reproduces(f + m->0, rd, p, ft);
            let apart = t is Some && reproduces(f + t->0, rd, p, ft);
            &&& merged ==> hlsl_text(rd, p, ft) == Some(f + m->0)
            &&& !merged && apart ==> hlsl_text(rd, p, ft) == Some(f + t->0)
            &&& !merged && !apart ==> hlsl_text(rd, p, ft) is None
        }),
{
}

/// The lines at the front: shader model, compile flags and creator, each behind its
/// word, and an empty line where there is no further header.
pub proof fn fronts_are_written(rd: RdefModel)
    requires
        rd.rd11_extra is None,
    ensures
        head_text(rd) == "target "@ + hex_padded(rd.target_version as nat, 8) + "\nflags "@
            + hex_text(rd.compile_flags as nat) + "\ncreator "@ + rd.creator + seq!['\n', '\n'],
{
    reveal_strlit("\n");
    assert("\n"@ =~= seq!['\n']);
    assert(head_text(rd) =~= "target "@ + hex_padded(rd.target_version as nat, 8) + "\nflags "@
        + hex_text(rd.compile_flags as nat) + "\ncreator "@ + rd.creator + seq!['\n', '\n']);
}

} // verus!
