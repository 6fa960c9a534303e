//! Writing resource definitions in HLSL form.
//!
//! Bindings are written as declarations, struct types and constant buffers as
//! blocks. What HLSL has no words for stands behind as annotations, left out
//! where it can be found out again.

use vstd::prelude::*;

use crate::chunks::rdef::{
    BindingModel, CBufferDef, CBufferModel, CBufferVariable, MemberDesc, MemberModel, RdefModel,
    ResourceBinding, ResourceDef, SLOT_UNUSED, TypeDesc, TypeModel, VAR_FLAG_USED, VariableModel,
    binding_models, cbuffer_models, lemma_type_model, member_models, variable_models,
};
use crate::chunks::rdef_write::rdef_payload;
use crate::floats::{FloatTable, Spellings};
use crate::grammar::rdef::decode::{
    find_buffer, hlsl_parsed, rdef_from_hlsl, variable_used,
};
use crate::grammar::rdef::hlsl::{
    bind_flags_str, bind_flags_text, default_text, derived_binding_flags, derived_var_size,
    derived_var_size_of, dim_names, dim_to_hlsl, implied_flags, is_structured, is_texture,
    natural_or_zero, natural_size_of, packoffset_str, packoffset_text, render_default, ret_names,
    ret_to_hlsl, split_array, split_array_of, struct_size, struct_size_of, structured, texture,
    type_ref, type_ref_of,
};
use crate::grammar::rdef::kv::{bytes_text, hex4_text, slots_text, write_bytes, write_hex4, write_slots};
use crate::grammar::rdef::usage::var_used;
use crate::grammar::tables::table_name;
use crate::numerals::{dec_text, hex_padded, hex_text, push_dec, push_hex, push_hex_padded};
use crate::shex::ir::{Program, ProgramModel};
use crate::text::{chars_of, is_text, push_chars, push_text};

verus! {

// ---------------------------------------------------------------------------
// Pieces
// ---------------------------------------------------------------------------

/// A key and a number, where it is not the number taken for granted.
pub open spec fn dec_note(key: Seq<char>, n: nat, granted: nat) -> Seq<char> {
    if n != granted {
        key + dec_text(n)
    } else {
        Seq::empty()
    }
}

/// The words of shader model five, where they are not all nought.
pub open spec fn sm5_note(e: Option<[u32; 4]>) -> Seq<char> {
    match e {
        Some(x) => if x[0] != 0 || x[1] != 0 || x[2] != 0 || x[3] != 0 {
            " sm5="@ + hex4_text(x)
        } else {
            Seq::empty()
        },
        None => Seq::empty(),
    }
}

/// The qualifier of a matrix that goes by rows.
pub open spec fn row_major_text(class: u16) -> Seq<char> {
    if class == 2 {
        "row_major "@
    } else {
        Seq::empty()
    }
}

/// An array length behind a name.
pub open spec fn length_text(n: Option<Seq<char>>) -> Seq<char> {
    match n {
        Some(k) => "["@ + k + "]"@,
        None => Seq::empty(),
    }
}

/// Type and name of a declaration.
pub open spec fn declarator_text(t: TypeModel, name: Seq<char>) -> Option<Seq<char>> {
    match type_ref(t) {
        None => None,
        Some(r) => {
            let (stem, n) = split_array(r);
            Some("    "@ + row_major_text(t.class) + stem + " "@ + name + length_text(n))
        },
    }
}

fn note_dec(o: &mut String, key: &str, n: u64, granted: u64)
    ensures
        final(o)@ == old(o)@ + dec_note(key@, n as nat, granted as nat),
{
    let mut l = String::new();
    if n != granted {
        push_text(&mut l, key);
        assert(l@ =~= key@);
        push_dec(&mut l, n);
    }
    push_text(o, l.as_str());
}

fn note_sm5(o: &mut String, e: &Option<[u32; 4]>)
    ensures
        final(o)@ == old(o)@ + sm5_note(*e),
{
    let mut l = String::new();
    match e {
        Some(x) => {
            if x[0] != 0 || x[1] != 0 || x[2] != 0 || x[3] != 0 {
                push_text(&mut l, " sm5=");
                assert(l@ =~= " sm5="@);
                write_hex4(&mut l, x);
            }
        },
        None => {},
    }
    push_text(o, l.as_str());
}

fn declarator_of(t: &TypeDesc, name: &str) -> (r: Option<String>)
    ensures
        match r {
            Some(s) => declarator_text(t.model(), name@) == Some(s@),
            None => declarator_text(t.model(), name@) is None,
        },
{
    let spelled = match type_ref_of(t) {
        Some(s) => s,
        None => {
            return None;
        },
    };
    let chars = chars_of(spelled.as_str());
    let (stem, n) = split_array_of(chars.as_slice());
    let mut o = String::new();
    push_text(&mut o, "    ");
    assert(o@ =~= "    "@);
    let q = if t.class == 2 { "row_major " } else { "" };
    proof {
        reveal_strlit("");
        assert(""@ =~= Seq::empty());
    }
    push_text(&mut o, q);
    push_chars(&mut o, stem);
    push_text(&mut o, " ");
    push_text(&mut o, name);
    let mut l = String::new();
    match n {
        Some(k) => {
            push_text(&mut l, "[");
            assert(l@ =~= "["@);
            push_chars(&mut l, k);
            push_text(&mut l, "]");
        },
        None => {},
    }
    push_text(&mut o, l.as_str());
    Some(o)
}

// ---------------------------------------------------------------------------
// Structs
// ---------------------------------------------------------------------------

/// Where member number `k` begins where nothing says so.
pub open spec fn running_offset(ms: Seq<MemberModel>, k: int) -> nat {
    if k <= 0 {
        0
    } else {
        (ms[k - 1].offset + natural_or_zero(ms[k - 1].member_type)) as nat
    }
}

/// The lines of the first `n` members.
pub open spec fn struct_members_text(ms: Seq<MemberModel>, n: int) -> Option<Seq<char>>
    decreases n,
{
    if n <= 0 {
        Some(Seq::empty())
    } else {
        let m = ms[n - 1];
        match (struct_members_text(ms, n - 1), declarator_text(m.member_type, m.name)) {
            (Some(before), Some(d)) => Some(
                before + (d + dec_note(" +"@, m.offset as nat, running_offset(ms, n - 1))
                    + sm5_note(m.member_type.sm5_extra) + ";\n"@),
            ),
            _ => None,
        }
    }
}

/// The block of a struct type.
pub open spec fn struct_text(t: TypeModel) -> Option<Seq<char>> {
    match struct_members_text(t.members, t.members.len() as int) {
        None => None,
        Some(ms) => Some(
            "struct "@ + t.name + dec_note(" class="@, t.class as nat, 5) + dec_note(
                " vtype="@,
                t.var_type as nat,
                0,
            ) + dec_note(" rows="@, t.rows as nat, 1) + dec_note(
                " cols="@,
                t.columns as nat,
                struct_size(t.members) / 4,
            ) + sm5_note(t.sm5_extra) + " {\n"@ + ms + "};\n"@,
        ),
    }
}

/// Blocks of structs, and the names of those written.
pub struct StructBlocks {
    /// The blocks.
    pub text: Seq<char>,
    /// The names.
    pub seen: Seq<Seq<char>>,
}

/// The blocks with that of the type of one variable more, where it is a named
/// struct not written yet.
pub open spec fn with_struct(b: StructBlocks, t: TypeModel) -> Option<StructBlocks> {
    if t.members.len() == 0 || t.name.len() == 0 || b.seen.contains(t.name) {
        Some(b)
    } else {
        match struct_text(t) {
            Some(s) => Some(StructBlocks { text: b.text + s, seen: b.seen.push(t.name) }),
            None => None,
        }
    }
}

/// The blocks with those of the first `n` variables more.
pub open spec fn with_variable_structs(b: StructBlocks, vs: Seq<VariableModel>, n: int) -> Option<
    StructBlocks,
>
    decreases n,
{
    if n <= 0 {
        Some(b)
    } else {
        match with_variable_structs(b, vs, n - 1) {
            Some(c) => with_struct(c, vs[n - 1].var_type),
            None => None,
        }
    }
}

/// The blocks of the structs in the first `n` buffers.
pub open spec fn struct_blocks(cs: Seq<CBufferModel>, n: int) -> Option<StructBlocks>
    decreases n,
{
    if n <= 0 {
        Some(StructBlocks { text: Seq::empty(), seen: Seq::empty() })
    } else {
        match struct_blocks(cs, n - 1) {
            Some(b) => with_variable_structs(
                b,
                cs[n - 1].variables,
                cs[n - 1].variables.len() as int,
            ),
            None => None,
        }
    }
}

proof fn lemma_struct_members_none(ms: Seq<MemberModel>, k: int, n: int)
    requires
        0 <= k <= n,
        struct_members_text(ms, k) is None,
    ensures
        struct_members_text(ms, n) is None,
    decreases n - k,
{
    if k < n {
        lemma_struct_members_none(ms, k + 1, n);
    }
}

fn struct_members_of(members: &Vec<MemberDesc>) -> (r: Option<String>)
    ensures
        match r {
            Some(s) => struct_members_text(member_models(members@), members@.len() as int) == Some(
                s@,
            ),
            None => struct_members_text(member_models(members@), members@.len() as int) is None,
        },
{
    let ghost ms = member_models(members@);
    let mut o = String::new();
    let mut running: u64 = 0;
    let mut i: usize = 0;
    while i < members.len()
        invariant
            ms == member_models(members@),
            i <= members.len(),
            running == running_offset(ms, i as int),
            struct_members_text(ms, i as int) == Some(o@),
        decreases members.len() - i,
    {
        let m = &members[i];
        assert(ms[i as int] == m.model());
        match declarator_of(&m.member_type, m.name.as_str()) {
            None => {
                proof {
                    lemma_struct_members_none(ms, i as int + 1, ms.len() as int);
                }
                return None;
            },
            Some(d) => {
                let mut l = d;
                note_dec(&mut l, " +", m.offset as u64, running);
                note_sm5(&mut l, &m.member_type.sm5_extra);
                push_text(&mut l, ";\n");
                push_text(&mut o, l.as_str());
            },
        }
        let n: u64 = match natural_size_of(&m.member_type) {
            Some(s) => s,
            None => 0,
        };
        running = m.offset as u64 + n;
        i += 1;
    }
    Some(o)
}

fn struct_of(t: &TypeDesc) -> (r: Option<String>)
    ensures
        match r {
            Some(s) => struct_text(t.model()) == Some(s@),
            None => struct_text(t.model()) is None,
        },
{
    proof {
        lemma_type_model(*t);
    }
    let ms = match struct_members_of(&t.members) {
        Some(s) => s,
        None => {
            return None;
        },
    };
    let size: u64 = struct_size_of(&t.members);
    let mut o = String::new();
    push_text(&mut o, "struct ");
    assert(o@ =~= "struct "@);
    push_text(&mut o, t.name.as_str());
    note_dec(&mut o, " class=", t.class as u64, 5);
    note_dec(&mut o, " vtype=", t.var_type as u64, 0);
    note_dec(&mut o, " rows=", t.rows as u64, 1);
    note_dec(&mut o, " cols=", t.columns as u64, size / 4);
    note_sm5(&mut o, &t.sm5_extra);
    push_text(&mut o, " {\n");
    push_text(&mut o, ms.as_str());
    push_text(&mut o, "};\n");
    Some(o)
}

/// The names of the structs written.
spec fn seen_views(v: Seq<&str>) -> Seq<Seq<char>> {
    Seq::new(v.len(), |i: int| v[i]@)
}

fn seen_contains(seen: &Vec<&str>, name: &str) -> (r: bool)
    ensures
        r == seen_views(seen@).contains(name@),
{
    let ghost vs = seen_views(seen@);
    let chars = chars_of(name);
    let mut i: usize = 0;
    while i < seen.len()
        invariant
            vs == seen_views(seen@),
            chars@ == name@,
            i <= seen.len(),
            forall|k: int| 0 <= k < i ==> vs[k] != name@,
        decreases seen.len() - i,
    {
        assert(vs[i as int] == seen@[i as int]@);
        if is_text(chars.as_slice(), seen[i]) {
            assert(vs.contains(name@));
            return true;
        }
        i += 1;
    }
    false
}

/// The blocks of the structs in all buffers, and whether there are any.
fn struct_blocks_of(cbs: &Vec<CBufferDef>) -> (r: Option<(String, bool)>)
    ensures
        match r {
            Some((s, any)) => match struct_blocks(cbuffer_models(cbs@), cbs@.len() as int) {
                Some(b) => b.text == s@ && any == (b.seen.len() > 0),
                None => false,
            },
            None => struct_blocks(cbuffer_models(cbs@), cbs@.len() as int) is None,
        },
{
    let ghost cs = cbuffer_models(cbs@);
    let mut o = String::new();
    let mut seen: Vec<&str> = Vec::new();
    let mut i: usize = 0;
    assert(seen_views(seen@) =~= Seq::empty());
    while i < cbs.len()
        invariant
            cs == cbuffer_models(cbs@),
            i <= cbs.len(),
            struct_blocks(cs, i as int) == Some(
                StructBlocks { text: o@, seen: seen_views(seen@) },
            ),
        decreases cbs.len() - i,
    {
        let cb = &cbs[i];
        assert(cs[i as int] == cb.model());
        let ghost start = StructBlocks { text: o@, seen: seen_views(seen@) };
        let ghost vs = cb.model().variables;
        let mut j: usize = 0;
        while j < cb.variables.len()
            invariant
                cs == cbuffer_models(cbs@),
                i < cbs.len(),
                cs[i as int] == cb.model(),
                vs == cb.model().variables,
                struct_blocks(cs, i as int) == Some(start),
                j <= cb.variables.len(),
                with_variable_structs(start, vs, j as int) == Some(
                    StructBlocks { text: o@, seen: seen_views(seen@) },
                ),
            decreases cb.variables.len() - j,
        {
            let t = &cb.variables[j].var_type;
            proof {
                lemma_type_model(*t);
                assert(vs[j as int].var_type == t.model());
            }
            if t.members.len() > 0 && !t.name.as_str().is_empty() && !seen_contains(
                &seen,
                t.name.as_str(),
            ) {
                match struct_of(t) {
                    Some(s) => {
                        let ghost before = seen@;
                        push_text(&mut o, s.as_str());
                        seen.push(t.name.as_str());
                        proof {
                            assert(seen_views(seen@) =~= seen_views(before).push(t.name@));
                        }
                    },
                    None => {
                        proof {
                            lemma_variable_structs_none(start, vs, j as int + 1, vs.len() as int);
                            lemma_struct_blocks_none(cs, i as int + 1, cs.len() as int);
                        }
                        return None;
                    },
                }
            }
            j += 1;
        }
        i += 1;
    }
    let any = seen.len() > 0;
    Some((o, any))
}

proof fn lemma_variable_structs_none(b: StructBlocks, vs: Seq<VariableModel>, k: int, n: int)
    requires
        0 <= k <= n,
        with_variable_structs(b, vs, k) is None,
    ensures
        with_variable_structs(b, vs, n) is None,
    decreases n - k,
{
    if k < n {
        lemma_variable_structs_none(b, vs, k + 1, n);
    }
}

proof fn lemma_struct_blocks_none(cs: Seq<CBufferModel>, k: int, n: int)
    requires
        0 <= k <= n,
        struct_blocks(cs, k) is None,
    ensures
        struct_blocks(cs, n) is None,
    decreases n - k,
{
    if k < n {
        lemma_struct_blocks_none(cs, k + 1, n);
    }
}

// ---------------------------------------------------------------------------
// Bindings
// ---------------------------------------------------------------------------

/// The spelling of the element type of a structured binding.
pub open spec fn element_ref(b: BindingModel, cs: Seq<CBufferModel>) -> Option<Seq<char>> {
    match find_buffer(cs, b.name, 0) {
        Some(c) => if c.variables.len() > 0 {
            type_ref(c.variables[0].var_type)
        } else {
            None
        },
        None => None,
    }
}

/// A keyword with an element type, where there is one.
pub open spec fn wrapped(keyword: Seq<char>, elem: Option<Seq<char>>) -> Seq<char> {
    match elem {
        Some(e) => keyword + "<"@ + e + ">"@,
        None => keyword,
    }
}

/// The type of a texture.
pub open spec fn texture_spec(prefix: Seq<char>, b: BindingModel) -> Option<Seq<char>> {
    match table_name(dim_names(), b.dimension) {
        None => None,
        Some(d) => Some(wrapped(prefix + d, table_name(ret_names(), b.return_type))),
    }
}

/// The type and the register class of a binding.
pub open spec fn typespec(b: BindingModel, cs: Seq<CBufferModel>) -> Option<(Seq<char>, char)> {
    let elem = element_ref(b, cs);
    if b.input_type == 0 {
        Some(("cbuffer"@, 'b'))
    } else if b.input_type == 1 {
        Some(("tbuffer"@, 't'))
    } else if b.input_type == 2 {
        match texture_spec(Seq::empty(), b) {
            Some(s) => Some((s, 't')),
            None => None,
        }
    } else if b.input_type == 3 {
        Some(("SamplerState"@, 's'))
    } else if b.input_type == 4 {
        match texture_spec("RW"@, b) {
            Some(s) => Some((s, 'u')),
            None => None,
        }
    } else if b.input_type == 5 {
        Some((wrapped("StructuredBuffer"@, elem), 't'))
    } else if b.input_type == 6 || b.input_type == 11 {
        Some((wrapped("RWStructuredBuffer"@, elem), 'u'))
    } else if b.input_type == 7 {
        Some(("ByteAddressBuffer"@, 't'))
    } else if b.input_type == 8 {
        Some(("RWByteAddressBuffer"@, 'u'))
    } else if b.input_type == 9 {
        Some((wrapped("AppendStructuredBuffer"@, elem), 'u'))
    } else if b.input_type == 10 {
        Some((wrapped("ConsumeStructuredBuffer"@, elem), 'u'))
    } else {
        None
    }
}

/// The count of a binding, where it is not one.
pub open spec fn count_note(n: u32) -> Seq<char> {
    if n != 1 {
        "["@ + dec_text(n as nat) + "]"@
    } else {
        Seq::empty()
    }
}

/// The dimension and the return type of a binding that is no texture, where they
/// are not taken for granted.
pub open spec fn shape_notes(b: BindingModel) -> Seq<char> {
    if is_texture(b.input_type) {
        Seq::empty()
    } else if is_structured(b.input_type) {
        dec_note(" dim="@, b.dimension as nat, 1) + dec_note(" ret="@, b.return_type as nat, 6)
    } else {
        dec_note(" dim="@, b.dimension as nat, 0) + dec_note(" ret="@, b.return_type as nat, 0)
    }
}

/// The number of samples, where it is not taken for granted.
pub open spec fn samples_note(b: BindingModel) -> Seq<char> {
    if is_structured(b.input_type) {
        Seq::empty()
    } else if is_texture(b.input_type) {
        dec_note(" samples="@, b.num_samples as nat, 0xFFFF_FFFF)
    } else {
        dec_note(" samples="@, b.num_samples as nat, 0)
    }
}

/// The flags, where the declaration does not imply them.
pub open spec fn flags_note(flags: u32, granted: u32) -> Seq<char> {
    if flags != granted {
        " flags="@ + bind_flags_text(flags)
    } else {
        Seq::empty()
    }
}

/// The declaration of a binding.
pub open spec fn binding_text(b: BindingModel, cs: Seq<CBufferModel>) -> Option<Seq<char>> {
    match typespec(b, cs) {
        None => None,
        Some((spec, class)) => Some(
            spec + " "@ + b.name + " : register("@ + seq![class] + dec_text(b.bind_point as nat)
                + ")"@ + count_note(b.bind_count) + shape_notes(b) + samples_note(b) + flags_note(
                b.flags,
                implied_flags(b.input_type, b.return_type),
            ) + ";\n"@,
        ),
    }
}

/// The first buffer called `name`.
fn find_buffer_named<'a>(cbs: &'a Vec<CBufferDef>, name: &str) -> (r: Option<&'a CBufferDef>)
    ensures
        match r {
            Some(c) => find_buffer(cbuffer_models(cbs@), name@, 0) == Some(c.model()),
            None => find_buffer(cbuffer_models(cbs@), name@, 0) is None,
        },
{
    let ghost cs = cbuffer_models(cbs@);
    let chars = chars_of(name);
    let mut k: usize = 0;
    while k < cbs.len()
        invariant
            cs == cbuffer_models(cbs@),
            chars@ == name@,
            k <= cbs.len(),
            find_buffer(cs, name@, 0) == find_buffer(cs, name@, k as int),
        decreases cbs.len() - k,
    {
        assert(cs[k as int] == cbs@[k as int].model());
        if is_text(chars.as_slice(), cbs[k].name.as_str()) {
            return Some(&cbs[k]);
        }
        k += 1;
    }
    None
}

fn element_ref_of(b: &ResourceBinding, cbs: &Vec<CBufferDef>) -> (r: Option<String>)
    ensures
        match r {
            Some(s) => element_ref(b.model(), cbuffer_models(cbs@)) == Some(s@),
            None => element_ref(b.model(), cbuffer_models(cbs@)) is None,
        },
{
    match find_buffer_named(cbs, b.name.as_str()) {
        Some(c) => {
            if c.variables.len() > 0 {
                assert(c.model().variables[0] == c.variables@[0].model());
                type_ref_of(&c.variables[0].var_type)
            } else {
                None
            }
        },
        None => None,
    }
}

fn wrap(keyword: &str, elem: &Option<String>) -> (r: String)
    ensures
        r@ == wrapped(
            keyword@,
            match *elem {
                Some(e) => Some(e@),
                None => None,
            },
        ),
{
    let mut o = String::new();
    push_text(&mut o, keyword);
    assert(o@ =~= keyword@);
    match elem {
        Some(e) => {
            push_text(&mut o, "<");
            push_text(&mut o, e.as_str());
            push_text(&mut o, ">");
        },
        None => {},
    }
    o
}

fn texture_of(prefix: &str, b: &ResourceBinding) -> (r: Option<String>)
    ensures
        match r {
            Some(s) => texture_spec(prefix@, b.model()) == Some(s@),
            None => texture_spec(prefix@, b.model()) is None,
        },
{
    match dim_to_hlsl(b.dimension) {
        None => None,
        Some(d) => {
            let mut o = String::new();
            push_text(&mut o, prefix);
            assert(o@ =~= prefix@);
            push_text(&mut o, d);
            match ret_to_hlsl(b.return_type) {
                Some(v) => {
                    push_text(&mut o, "<");
                    push_text(&mut o, v);
                    push_text(&mut o, ">");
                },
                None => {},
            }
            Some(o)
        },
    }
}

fn plain(s: &str) -> (r: String)
    ensures
        r@ == s@,
{
    let mut o = String::new();
    push_text(&mut o, s);
    assert(o@ =~= s@);
    o
}

fn binding_typespec(b: &ResourceBinding, cbs: &Vec<CBufferDef>) -> (r: Option<(String, char)>)
    ensures
        match r {
            Some((s, c)) => typespec(b.model(), cbuffer_models(cbs@)) == Some((s@, c)),
            None => typespec(b.model(), cbuffer_models(cbs@)) is None,
        },
{
    let elem = element_ref_of(b, cbs);
    match b.input_type {
        0 => Some((plain("cbuffer"), 'b')),
        1 => Some((plain("tbuffer"), 't')),
        2 => {
            proof {
                reveal_strlit("");
                assert(""@ =~= Seq::empty());
            }
            match texture_of("", b) {
                Some(s) => Some((s, 't')),
                None => None,
            }
        },
        3 => Some((plain("SamplerState"), 's')),
        4 => match texture_of("RW", b) {
            Some(s) => Some((s, 'u')),
            None => None,
        },
        5 => Some((wrap("StructuredBuffer", &elem), 't')),
        6 => Some((wrap("RWStructuredBuffer", &elem), 'u')),
        7 => Some((plain("ByteAddressBuffer"), 't')),
        8 => Some((plain("RWByteAddressBuffer"), 'u')),
        9 => Some((wrap("AppendStructuredBuffer", &elem), 'u')),
        10 => Some((wrap("ConsumeStructuredBuffer", &elem), 'u')),
        11 => Some((wrap("RWStructuredBuffer", &elem), 'u')),
        _ => None,
    }
}

fn note_flags(o: &mut String, flags: u32, granted: u32)
    ensures
        final(o)@ == old(o)@ + flags_note(flags, granted),
{
    let mut l = String::new();
    if flags != granted {
        push_text(&mut l, " flags=");
        assert(l@ =~= " flags="@);
        let f = bind_flags_str(flags);
        push_text(&mut l, f.as_str());
    }
    push_text(o, l.as_str());
}

fn note_shape(o: &mut String, b: &ResourceBinding)
    ensures
        final(o)@ == old(o)@ + shape_notes(b.model()),
{
    let mut l = String::new();
    if !texture(b.input_type) {
        let st = structured(b.input_type);
        let ghost d = dec_note(
            " dim="@,
            b.dimension as nat,
            if is_structured(b.input_type) {
                1
            } else {
                0
            },
        );
        note_dec(&mut l, " dim=", b.dimension as u64, if st { 1 } else { 0 });
        assert(l@ =~= d);
        note_dec(&mut l, " ret=", b.return_type as u64, if st { 6 } else { 0 });
    }
    push_text(o, l.as_str());
}

fn note_samples(o: &mut String, b: &ResourceBinding)
    ensures
        final(o)@ == old(o)@ + samples_note(b.model()),
{
    if structured(b.input_type) {
        assert(o@ =~= old(o)@ + Seq::<char>::empty());
    } else if texture(b.input_type) {
        note_dec(o, " samples=", b.num_samples as u64, 0xFFFF_FFFF);
    } else {
        note_dec(o, " samples=", b.num_samples as u64, 0);
    }
}

fn note_count(o: &mut String, n: u32)
    ensures
        final(o)@ == old(o)@ + count_note(n),
{
    let mut l = String::new();
    if n != 1 {
        push_text(&mut l, "[");
        assert(l@ =~= "["@);
        push_dec(&mut l, n as u64);
        push_text(&mut l, "]");
    }
    push_text(o, l.as_str());
}

/// The declaration of a binding.
fn emit_binding(b: &ResourceBinding, cbs: &Vec<CBufferDef>) -> (r: Option<String>)
    ensures
        match r {
            Some(s) => binding_text(b.model(), cbuffer_models(cbs@)) == Some(s@),
            None => binding_text(b.model(), cbuffer_models(cbs@)) is None,
        },
{
    match binding_typespec(b, cbs) {
        None => None,
        Some((spec, class)) => {
            let mut o = spec;
            push_text(&mut o, " ");
            push_text(&mut o, b.name.as_str());
            push_text(&mut o, " : register(");
            let mut c = String::new();
            c.push(class);
            assert(c@ =~= seq![class]);
            push_text(&mut o, c.as_str());
            push_dec(&mut o, b.bind_point as u64);
            push_text(&mut o, ")");
            note_count(&mut o, b.bind_count);
            note_shape(&mut o, b);
            note_samples(&mut o, b);
            note_flags(&mut o, b.flags, derived_binding_flags(b.input_type, b.return_type));
            push_text(&mut o, ";\n");
            Some(o)
        },
    }
}

// ---------------------------------------------------------------------------
// Variables and buffers
// ---------------------------------------------------------------------------

/// The size of a variable, where its type does not give it.
pub open spec fn size_note(v: VariableModel) -> Seq<char> {
    if derived_var_size(v.var_type) == Some(v.size as nat) {
        Seq::empty()
    } else {
        " size="@ + dec_text(v.size as nat)
    }
}

/// The flags of a variable, where they are not those that its use gives.
pub open spec fn use_note(flags: u32, used: bool) -> Seq<char> {
    let granted = if used {
        VAR_FLAG_USED
    } else {
        0
    };
    if flags == granted {
        Seq::empty()
    } else if flags == VAR_FLAG_USED {
        " used"@
    } else if flags == 0 {
        " unused"@
    } else {
        " vflags="@ + hex_text(flags as nat)
    }
}

/// A slot range, where it is not that of no slots.
pub open spec fn slots_note(key: Seq<char>, start: Option<u32>, size: Option<u32>) -> Seq<char> {
    match start {
        Some(s) => if s != SLOT_UNUSED || (size is Some && size->0 != 0) {
            slots_text(key, start, size)
        } else {
            Seq::empty()
        },
        None => Seq::empty(),
    }
}

/// A default value: as an initializer, or in hexadecimal.
pub open spec fn default_note(v: VariableModel, ft: Spellings) -> Seq<char> {
    if v.default_value.len() == 0 {
        Seq::empty()
    } else {
        match default_text(v.var_type, v.default_value, ft) {
            Some(i) => " = "@ + i,
            None => " default="@ + bytes_text(v.default_value, v.default_value.len() as int),
        }
    }
}

/// The line of a variable in a buffer that lies in register `reg`.
pub open spec fn variable_text(
    v: VariableModel,
    p: Option<ProgramModel>,
    reg: Option<u32>,
    ft: Spellings,
) -> Option<Seq<char>> {
    match (declarator_text(v.var_type, v.name), packoffset_text(v.offset)) {
        (Some(d), Some(po)) => Some(
            d + " : packoffset("@ + po + ")"@ + size_note(v) + use_note(
                v.flags,
                variable_used(p, reg, v.offset, v.size),
            ) + sm5_note(v.var_type.sm5_extra) + slots_note(
                " tex="@,
                v.texture_start,
                v.texture_size,
            ) + slots_note(" samp="@, v.sampler_start, v.sampler_size) + default_note(v, ft)
                + ";\n"@,
        ),
        _ => None,
    }
}

/// The lines of the first `n` variables.
pub open spec fn variables_text(
    vs: Seq<VariableModel>,
    p: Option<ProgramModel>,
    reg: Option<u32>,
    ft: Spellings,
    n: int,
) -> Option<Seq<char>>
    decreases n,
{
    if n <= 0 {
        Some(Seq::empty())
    } else {
        match (variables_text(vs, p, reg, ft, n - 1), variable_text(vs[n - 1], p, reg, ft)) {
            (Some(a), Some(b)) => Some(a + b),
            _ => None,
        }
    }
}

/// The register of a block, where it gives one.
pub open spec fn block_register_text(r: Option<u32>) -> Seq<char> {
    match r {
        Some(n) => " : register(b"@ + dec_text(n as nat) + ")"@,
        None => Seq::empty(),
    }
}

/// The flags of a buffer, where there are any.
pub open spec fn cbflags_note(f: u32) -> Seq<char> {
    if f != 0 {
        " cbflags="@ + hex_text(f as nat)
    } else {
        Seq::empty()
    }
}

/// The block of a constant buffer.
pub open spec fn block_text(
    c: CBufferModel,
    register: Option<u32>,
    bind_flags: u32,
    p: Option<ProgramModel>,
    reg: Option<u32>,
    ft: Spellings,
) -> Option<Seq<char>> {
    match variables_text(c.variables, p, reg, ft, c.variables.len() as int) {
        None => None,
        Some(vs) => Some(
            "cbuffer "@ + c.name + block_register_text(register) + flags_note(bind_flags, 0)
                + dec_note(" kind="@, c.cb_type as nat, 0) + cbflags_note(c.flags) + " {\n"@ + vs
                + "};\n"@,
        ),
    }
}

spec fn opt_model(p: Option<&Program>) -> Option<ProgramModel> {
    match p {
        Some(x) => Some(x.model()),
        None => None,
    }
}

fn note_size(o: &mut String, v: &CBufferVariable)
    ensures
        final(o)@ == old(o)@ + size_note(v.model()),
{
    let mut l = String::new();
    let same = match derived_var_size_of(&v.var_type) {
        Some(s) => s == v.size as u64,
        None => false,
    };
    if !same {
        push_text(&mut l, " size=");
        assert(l@ =~= " size="@);
        push_dec(&mut l, v.size as u64);
    }
    push_text(o, l.as_str());
}

fn note_use(o: &mut String, flags: u32, used: bool)
    ensures
        final(o)@ == old(o)@ + use_note(flags, used),
{
    let mut l = String::new();
    let granted: u32 = if used { VAR_FLAG_USED } else { 0 };
    if flags != granted {
        if flags == VAR_FLAG_USED {
            push_text(&mut l, " used");
            assert(l@ =~= " used"@);
        } else if flags == 0 {
            push_text(&mut l, " unused");
            assert(l@ =~= " unused"@);
        } else {
            push_text(&mut l, " vflags=");
            assert(l@ =~= " vflags="@);
            push_hex(&mut l, flags as u64);
        }
    }
    push_text(o, l.as_str());
}

fn note_slots(o: &mut String, key: &str, start: Option<u32>, size: Option<u32>)
    ensures
        final(o)@ == old(o)@ + slots_note(key@, start, size),
{
    let there = match start {
        Some(s) => {
            let n: u32 = match size {
                Some(n) => n,
                None => 0,
            };
            s != SLOT_UNUSED || n != 0
        },
        None => false,
    };
    if there {
        write_slots(o, key, start, size);
    } else {
        assert(o@ =~= old(o)@ + Seq::<char>::empty());
    }
}

fn note_default(o: &mut String, v: &CBufferVariable, ft: &FloatTable)
    ensures
        final(o)@ == old(o)@ + default_note(v.model(), ft@),
{
    let mut l = String::new();
    if v.default_value.len() > 0 {
        match render_default(&v.var_type, &v.default_value, ft) {
            Some(i) => {
                push_text(&mut l, " = ");
                assert(l@ =~= " = "@);
                push_text(&mut l, i.as_str());
            },
            None => {
                push_text(&mut l, " default=");
                assert(l@ =~= " default="@);
                write_bytes(&mut l, v.default_value.as_slice());
            },
        }
    }
    push_text(o, l.as_str());
}

/// The line of a variable.
fn emit_var(v: &CBufferVariable, p: Option<&Program>, reg: Option<u32>, ft: &FloatTable) -> (r:
    Option<String>)
    ensures
        match r {
            Some(s) => variable_text(v.model(), opt_model(p), reg, ft@) == Some(s@),
            None => variable_text(v.model(), opt_model(p), reg, ft@) is None,
        },
{
    let used = match (p, reg) {
        (Some(x), Some(n)) => var_used(x, n, v.offset, v.size),
        _ => false,
    };
    match (declarator_of(&v.var_type, v.name.as_str()), packoffset_str(v.offset)) {
        (Some(d), Some(po)) => {
            let mut o = d;
            push_text(&mut o, " : packoffset(");
            push_text(&mut o, po.as_str());
            push_text(&mut o, ")");
            note_size(&mut o, v);
            note_use(&mut o, v.flags, used);
            note_sm5(&mut o, &v.var_type.sm5_extra);
            note_slots(&mut o, " tex=", v.texture_start, v.texture_size);
            note_slots(&mut o, " samp=", v.sampler_start, v.sampler_size);
            note_default(&mut o, v, ft);
            push_text(&mut o, ";\n");
            Some(o)
        },
        _ => None,
    }
}

proof fn lemma_variables_none(
    vs: Seq<VariableModel>,
    p: Option<ProgramModel>,
    reg: Option<u32>,
    ft: Spellings,
    k: int,
    n: int,
)
    requires
        0 <= k <= n,
        variables_text(vs, p, reg, ft, k) is None,
    ensures
        variables_text(vs, p, reg, ft, n) is None,
    decreases n - k,
{
    if k < n {
        lemma_variables_none(vs, p, reg, ft, k + 1, n);
    }
}

fn emit_vars(
    vars: &Vec<CBufferVariable>,
    p: Option<&Program>,
    reg: Option<u32>,
    ft: &FloatTable,
) -> (r: Option<String>)
    ensures
        match r {
            Some(s) => variables_text(
                variable_models(vars@),
                opt_model(p),
                reg,
                ft@,
                vars@.len() as int,
            ) == Some(s@),
            None => variables_text(
                variable_models(vars@),
                opt_model(p),
                reg,
                ft@,
                vars@.len() as int,
            ) is None,
        },
{
    let ghost vs = variable_models(vars@);
    let mut o = String::new();
    let mut i: usize = 0;
    while i < vars.len()
        invariant
            vs == variable_models(vars@),
            i <= vars.len(),
            variables_text(vs, opt_model(p), reg, ft@, i as int) == Some(o@),
        decreases vars.len() - i,
    {
        assert(vs[i as int] == vars@[i as int].model());
        match emit_var(&vars[i], p, reg, ft) {
            Some(l) => {
                push_text(&mut o, l.as_str());
            },
            None => {
                proof {
                    lemma_variables_none(
                        vs,
                        opt_model(p),
                        reg,
                        ft@,
                        i as int + 1,
                        vs.len() as int,
                    );
                }
                return None;
            },
        }
        i += 1;
    }
    Some(o)
}

/// The block of a constant buffer.
fn emit_cbuffer_block(
    cb: &CBufferDef,
    register: Option<u32>,
    bind_flags: u32,
    p: Option<&Program>,
    reg: Option<u32>,
    ft: &FloatTable,
) -> (r: Option<String>)
    ensures
        match r {
            Some(s) => block_text(
                cb.model(),
                register,
                bind_flags,
                opt_model(p),
                reg,
                ft@,
            ) == Some(s@),
            None => block_text(cb.model(), register, bind_flags, opt_model(p), reg, ft@) is None,
        },
{
    let vs = match emit_vars(&cb.variables, p, reg, ft) {
        Some(s) => s,
        None => {
            return None;
        },
    };
    let mut o = String::new();
    push_text(&mut o, "cbuffer ");
    assert(o@ =~= "cbuffer "@);
    push_text(&mut o, cb.name.as_str());
    let mut l = String::new();
    match register {
        Some(n) => {
            push_text(&mut l, " : register(b");
            assert(l@ =~= " : register(b"@);
            push_dec(&mut l, n as u64);
            push_text(&mut l, ")");
        },
        None => {},
    }
    push_text(&mut o, l.as_str());
    note_flags(&mut o, bind_flags, 0);
    note_dec(&mut o, " kind=", cb.cb_type as u64, 0);
    let mut f = String::new();
    if cb.flags != 0 {
        push_text(&mut f, " cbflags=");
        assert(f@ =~= " cbflags="@);
        push_hex(&mut f, cb.flags as u64);
    }
    push_text(&mut o, f.as_str());
    push_text(&mut o, " {\n");
    push_text(&mut o, vs.as_str());
    push_text(&mut o, "};\n");
    Some(o)
}

// ---------------------------------------------------------------------------
// Bodies
// ---------------------------------------------------------------------------

/// The declarations of the first `n` bindings.
pub open spec fn bindings_text(bs: Seq<BindingModel>, cs: Seq<CBufferModel>, n: int) -> Option<
    Seq<char>,
>
    decreases n,
{
    if n <= 0 {
        Some(Seq::empty())
    } else {
        match (bindings_text(bs, cs, n - 1), binding_text(bs[n - 1], cs)) {
            (Some(a), Some(b)) => Some(a + b),
            _ => None,
        }
    }
}

/// The register of the first binding of a constant buffer called `name`, from
/// number `k` on.
pub open spec fn first_register(bs: Seq<BindingModel>, name: Seq<char>, k: int) -> Option<u32>
    decreases bs.len() - k,
{
    if k < 0 || k >= bs.len() {
        None
    } else if bs[k].name == name && bs[k].input_type == 0 {
        Some(bs[k].bind_point)
    } else {
        first_register(bs, name, k + 1)
    }
}

/// The blocks of the first `n` buffers, without registers.
pub open spec fn bare_blocks_text(
    rd: RdefModel,
    p: Option<ProgramModel>,
    ft: Spellings,
    n: int,
) -> Option<Seq<char>>
    decreases n,
{
    if n <= 0 {
        Some(Seq::empty())
    } else {
        let c = rd.constant_buffers[n - 1];
        match (
            bare_blocks_text(rd, p, ft, n - 1),
            block_text(c, None, 0, p, first_register(rd.bindings, c.name, 0), ft),
        ) {
            (Some(a), Some(b)) => Some(a + b),
            _ => None,
        }
    }
}

/// The body in two sections: all bindings, then all buffers.
pub open spec fn two_section_text(rd: RdefModel, p: Option<ProgramModel>, ft: Spellings) -> Option<
    Seq<char>,
> {
    match (
        bindings_text(rd.bindings, rd.constant_buffers, rd.bindings.len() as int),
        bare_blocks_text(rd, p, ft, rd.constant_buffers.len() as int),
    ) {
        (Some(a), Some(b)) => Some(
            a + (if rd.bindings.len() > 0 {
                "\n"@
            } else {
                Seq::empty()
            }) + b,
        ),
        _ => None,
    }
}

/// The names of those of the first `n` bindings that are plain constant buffers,
/// or of those that are structured.
pub open spec fn names_of_kind(bs: Seq<BindingModel>, plain: bool, n: int) -> Seq<Seq<char>>
    decreases n,
{
    if n <= 0 {
        Seq::empty()
    } else {
        let before = names_of_kind(bs, plain, n - 1);
        let b = bs[n - 1];
        if (plain && b.input_type == 0) || (!plain && is_structured(b.input_type)) {
            before.push(b.name)
        } else {
            before
        }
    }
}

/// The order that the buffers have when they are made from the bindings.
pub open spec fn natural_order(bs: Seq<BindingModel>) -> Seq<Seq<char>> {
    names_of_kind(bs, true, bs.len() as int) + names_of_kind(bs, false, bs.len() as int)
}

/// The names of the buffers.
pub open spec fn buffer_order(cs: Seq<CBufferModel>) -> Seq<Seq<char>> {
    Seq::new(cs.len(), |i: int| cs[i].name)
}

/// How often `name` occurs among the first `n` names.
pub open spec fn occurrences(names: Seq<Seq<char>>, name: Seq<char>, n: int) -> nat
    decreases n,
{
    if n <= 0 {
        0
    } else {
        occurrences(names, name, n - 1) + (if names[n - 1] == name {
            1nat
        } else {
            0nat
        })
    }
}

/// Whether two lists hold the same names, each as often.
pub open spec fn same_names(a: Seq<Seq<char>>, b: Seq<Seq<char>>) -> bool {
    forall|s: Seq<char>|
        #[trigger] occurrences(a, s, a.len() as int) == occurrences(b, s, b.len() as int)
}

/// The line of the buffers' order, where it is not the natural one.
pub open spec fn order_text(rd: RdefModel) -> Seq<char> {
    let d = buffer_order(rd.constant_buffers);
    if natural_order(rd.bindings) == d {
        Seq::empty()
    } else {
        "cborder"@ + spaced_names(d, d.len() as int) + "\n"@
    }
}

/// The first `n` names, each behind a space.
pub open spec fn spaced_names(names: Seq<Seq<char>>, n: int) -> Seq<char>
    decreases n,
{
    if n <= 0 {
        Seq::empty()
    } else {
        spaced_names(names, n - 1) + " "@ + names[n - 1]
    }
}

/// What a binding is in the merged body: the block of its buffer where it is a
/// plain one, else its declaration.
pub open spec fn merged_item(
    rd: RdefModel,
    b: BindingModel,
    p: Option<ProgramModel>,
    ft: Spellings,
) -> Option<Seq<char>> {
    if b.input_type == 0 {
        match find_buffer(rd.constant_buffers, b.name, 0) {
            Some(c) => block_text(
                c,
                Some(b.bind_point),
                b.flags,
                p,
                Some(b.bind_point),
                ft,
            ),
            None => None,
        }
    } else {
        binding_text(b, rd.constant_buffers)
    }
}

/// The merged items of the first `n` bindings.
pub open spec fn merged_items(
    rd: RdefModel,
    p: Option<ProgramModel>,
    ft: Spellings,
    n: int,
) -> Option<Seq<char>>
    decreases n,
{
    if n <= 0 {
        Some(Seq::empty())
    } else {
        match (merged_items(rd, p, ft, n - 1), merged_item(rd, rd.bindings[n - 1], p, ft)) {
            (Some(a), Some(b)) => Some(a + b),
            _ => None,
        }
    }
}

/// The merged body, where the bindings give all buffers.
pub open spec fn merged_text(rd: RdefModel, p: Option<ProgramModel>, ft: Spellings) -> Option<
    Seq<char>,
> {
    if !same_names(natural_order(rd.bindings), buffer_order(rd.constant_buffers)) {
        None
    } else {
        match merged_items(rd, p, ft, rd.bindings.len() as int) {
            Some(t) => Some(order_text(rd) + t),
            None => None,
        }
    }
}

/// The line of the further header, where there is one.
pub open spec fn rd11_line(r: Option<[u32; 8]>) -> Seq<char> {
    match r {
        Some(e) => "rd11 "@ + hex_text(e[0] as nat) + " "@ + hex_text(e[1] as nat) + " "@
            + hex_text(e[2] as nat) + " "@ + hex_text(e[3] as nat) + " "@ + hex_text(e[4] as nat)
            + " "@ + hex_text(e[5] as nat) + " "@ + hex_text(e[6] as nat) + " "@ + hex_text(
            e[7] as nat,
        ) + "\n"@,
        None => Seq::empty(),
    }
}

/// The header lines.
pub open spec fn head_text(rd: RdefModel) -> Seq<char> {
    "target "@ + hex_padded(rd.target_version as nat, 8) + "\nflags "@ + hex_text(
        rd.compile_flags as nat,
    ) + "\ncreator "@ + rd.creator + "\n"@ + rd11_line(rd.rd11_extra) + "\n"@
}

/// The header and the structs.
pub open spec fn front_text(rd: RdefModel) -> Option<Seq<char>> {
    match struct_blocks(rd.constant_buffers, rd.constant_buffers.len() as int) {
        Some(b) => Some(
            head_text(rd) + b.text + (if b.seen.len() > 0 {
                "\n"@
            } else {
                Seq::empty()
            }),
        ),
        None => None,
    }
}

/// Whether the text reads as definitions with the same bytes.
pub open spec fn reproduces(
    text: Seq<char>,
    rd: RdefModel,
    p: Option<ProgramModel>,
    ft: Spellings,
) -> bool {
    match hlsl_parsed(text, p, ft) {
        Some(rd2) => rdef_payload(rd2) == rdef_payload(rd),
        None => false,
    }
}

/// The text of resource definitions in HLSL form: merged where that reads as the
/// same bytes, else in two sections where those do; `None` where neither does, or
/// a part has no HLSL form.
pub open spec fn hlsl_text(rd: RdefModel, p: Option<ProgramModel>, ft: Spellings) -> Option<
    Seq<char>,
> {
    match front_text(rd) {
        None => None,
        Some(f) => {
            let m = merged_text(rd, p, ft);
            if m is Some && reproduces(f + m->0, rd, p, ft) {
                Some(f + m->0)
            } else {
                match two_section_text(rd, p, ft) {
                    Some(b) => if reproduces(f + b, rd, p, ft) {
                        Some(f + b)
                    } else {
                        None
                    },
                    None => None,
                }
            }
        },
    }
}

proof fn lemma_bindings_none(bs: Seq<BindingModel>, cs: Seq<CBufferModel>, k: int, n: int)
    requires
        0 <= k <= n,
        bindings_text(bs, cs, k) is None,
    ensures
        bindings_text(bs, cs, n) is None,
    decreases n - k,
{
    if k < n {
        lemma_bindings_none(bs, cs, k + 1, n);
    }
}

fn emit_bindings(rd: &ResourceDef) -> (r: Option<String>)
    ensures
        match r {
            Some(s) => bindings_text(
                rd.model().bindings,
                rd.model().constant_buffers,
                rd.model().bindings.len() as int,
            ) == Some(s@),
            None => bindings_text(
                rd.model().bindings,
                rd.model().constant_buffers,
                rd.model().bindings.len() as int,
            ) is None,
        },
{
    let ghost bs = rd.model().bindings;
    let ghost cs = rd.model().constant_buffers;
    let mut o = String::new();
    let mut i: usize = 0;
    while i < rd.bindings.len()
        invariant
            bs == binding_models(rd.bindings@),
            cs == cbuffer_models(rd.constant_buffers@),
            i <= rd.bindings.len(),
            bindings_text(bs, cs, i as int) == Some(o@),
        decreases rd.bindings.len() - i,
    {
        assert(bs[i as int] == rd.bindings@[i as int].model());
        match emit_binding(&rd.bindings[i], &rd.constant_buffers) {
            Some(l) => {
                push_text(&mut o, l.as_str());
            },
            None => {
                proof {
                    lemma_bindings_none(bs, cs, i as int + 1, bs.len() as int);
                }
                return None;
            },
        }
        i += 1;
    }
    Some(o)
}

fn first_register_of(bs: &Vec<ResourceBinding>, name: &str) -> (r: Option<u32>)
    ensures
        r == first_register(binding_models(bs@), name@, 0),
{
    let ghost ms = binding_models(bs@);
    let chars = chars_of(name);
    let mut k: usize = 0;
    while k < bs.len()
        invariant
            ms == binding_models(bs@),
            chars@ == name@,
            k <= bs.len(),
            first_register(ms, name@, 0) == first_register(ms, name@, k as int),
        decreases bs.len() - k,
    {
        assert(ms[k as int] == bs@[k as int].model());
        if bs[k].input_type == 0 && is_text(chars.as_slice(), bs[k].name.as_str()) {
            return Some(bs[k].bind_point);
        }
        k += 1;
    }
    None
}

proof fn lemma_bare_none(rd: RdefModel, p: Option<ProgramModel>, ft: Spellings, k: int, n: int)
    requires
        0 <= k <= n,
        bare_blocks_text(rd, p, ft, k) is None,
    ensures
        bare_blocks_text(rd, p, ft, n) is None,
    decreases n - k,
{
    if k < n {
        lemma_bare_none(rd, p, ft, k + 1, n);
    }
}

/// The body in two sections.
fn emit_twosection_body(rd: &ResourceDef, p: Option<&Program>, ft: &FloatTable) -> (r: Option<
    String,
>)
    ensures
        match r {
            Some(s) => two_section_text(rd.model(), opt_model(p), ft@) == Some(s@),
            None => two_section_text(rd.model(), opt_model(p), ft@) is None,
        },
{
    let ghost m = rd.model();
    let mut o = match emit_bindings(rd) {
        Some(s) => s,
        None => {
            return None;
        },
    };
    assert(m.bindings.len() == rd.bindings@.len());
    let sep = if rd.bindings.len() > 0 { "\n" } else { "" };
    proof {
        reveal_strlit("");
        assert(""@ =~= Seq::empty());
    }
    push_text(&mut o, sep);
    let mut b = String::new();
    let mut i: usize = 0;
    while i < rd.constant_buffers.len()
        invariant
            m == rd.model(),
            i <= rd.constant_buffers.len(),
            bare_blocks_text(m, opt_model(p), ft@, i as int) == Some(b@),
        decreases rd.constant_buffers.len() - i,
    {
        let cb = &rd.constant_buffers[i];
        assert(m.constant_buffers[i as int] == cb.model());
        let reg = first_register_of(&rd.bindings, cb.name.as_str());
        match emit_cbuffer_block(cb, None, 0, p, reg, ft) {
            Some(l) => {
                push_text(&mut b, l.as_str());
            },
            None => {
                proof {
                    lemma_bare_none(
                        m,
                        opt_model(p),
                        ft@,
                        i as int + 1,
                        m.constant_buffers.len() as int,
                    );
                }
                return None;
            },
        }
        i += 1;
    }
    assert(m.constant_buffers.len() == i);
    push_text(&mut o, b.as_str());
    Some(o)
}

fn names_of_bindings<'a>(bs: &'a Vec<ResourceBinding>, plain: bool) -> (r: Vec<&'a str>)
    ensures
        seen_views(r@) == names_of_kind(binding_models(bs@), plain, bs@.len() as int),
{
    let ghost ms = binding_models(bs@);
    let mut r: Vec<&'a str> = Vec::new();
    let mut i: usize = 0;
    assert(seen_views(r@) =~= Seq::empty());
    while i < bs.len()
        invariant
            ms == binding_models(bs@),
            i <= bs.len(),
            seen_views(r@) == names_of_kind(ms, plain, i as int),
        decreases bs.len() - i,
    {
        assert(ms[i as int] == bs@[i as int].model());
        let b = &bs[i];
        if (plain && b.input_type == 0) || (!plain && structured(b.input_type)) {
            let ghost before = r@;
            r.push(b.name.as_str());
            proof {
                assert(seen_views(r@) =~= seen_views(before).push(b.name@));
            }
        }
        i += 1;
    }
    r
}

fn names_of_buffers<'a>(cbs: &'a Vec<CBufferDef>) -> (r: Vec<&'a str>)
    ensures
        seen_views(r@) == buffer_order(cbuffer_models(cbs@)),
{
    let mut r: Vec<&'a str> = Vec::new();
    let mut i: usize = 0;
    while i < cbs.len()
        invariant
            i <= cbs.len(),
            r@.len() == i,
            forall|k: int| 0 <= k < i ==> (#[trigger] r@[k])@ == cbs@[k].name@,
        decreases cbs.len() - i,
    {
        r.push(cbs[i].name.as_str());
        i += 1;
    }
    assert(seen_views(r@) =~= buffer_order(cbuffer_models(cbs@)));
    r
}

fn count_name(names: &Vec<&str>, name: &str) -> (r: usize)
    ensures
        r == occurrences(seen_views(names@), name@, names@.len() as int),
{
    let ghost ns = seen_views(names@);
    let chars = chars_of(name);
    let mut n: usize = 0;
    let mut i: usize = 0;
    while i < names.len()
        invariant
            ns == seen_views(names@),
            chars@ == name@,
            i <= names.len(),
            n <= i,
            n == occurrences(ns, name@, i as int),
        decreases names.len() - i,
    {
        assert(ns[i as int] == names@[i as int]@);
        if is_text(chars.as_slice(), names[i]) {
            n += 1;
        }
        i += 1;
    }
    n
}

/// A name that is nowhere occurs never.
proof fn lemma_no_occurrence(names: Seq<Seq<char>>, name: Seq<char>, n: int)
    requires
        0 <= n <= names.len(),
        !names.contains(name),
    ensures
        occurrences(names, name, n) == 0,
    decreases n,
{
    if n > 0 {
        lemma_no_occurrence(names, name, n - 1);
        assert(names.contains(names[n - 1]));
    }
}

/// Whether every name of `a` occurs as often in `b`.
fn counts_agree(a: &Vec<&str>, b: &Vec<&str>) -> (r: bool)
    ensures
        r == (forall|i: int|
            0 <= i < a@.len() ==> occurrences(
                seen_views(a@),
                #[trigger] seen_views(a@)[i],
                a@.len() as int,
            ) == occurrences(seen_views(b@), seen_views(a@)[i], b@.len() as int)),
{
    let ghost x = seen_views(a@);
    let ghost y = seen_views(b@);
    let mut i: usize = 0;
    while i < a.len()
        invariant
            x == seen_views(a@),
            y == seen_views(b@),
            i <= a.len(),
            forall|k: int|
                0 <= k < i ==> occurrences(x, #[trigger] x[k], a@.len() as int) == occurrences(
                    y,
                    x[k],
                    b@.len() as int,
                ),
        decreases a.len() - i,
    {
        assert(x[i as int] == a@[i as int]@);
        if count_name(a, a[i]) != count_name(b, a[i]) {
            return false;
        }
        i += 1;
    }
    true
}

fn hold_same_names(a: &Vec<&str>, b: &Vec<&str>) -> (r: bool)
    ensures
        r == same_names(seen_views(a@), seen_views(b@)),
{
    let ghost x = seen_views(a@);
    let ghost y = seen_views(b@);
    assert(x.len() == a@.len() && y.len() == b@.len());
    if !counts_agree(a, b) {
        proof {
            let i = choose|i: int|
                0 <= i < a@.len() && occurrences(x, #[trigger] x[i], a@.len() as int)
                    != occurrences(y, x[i], b@.len() as int);
            assert(!same_names(x, y));
        }
        return false;
    }
    if !counts_agree(b, a) {
        proof {
            let i = choose|i: int|
                0 <= i < b@.len() && occurrences(y, #[trigger] y[i], b@.len() as int)
                    != occurrences(x, y[i], a@.len() as int);
            assert(occurrences(x, y[i], x.len() as int) != occurrences(y, y[i], y.len() as int));
        }
        return false;
    }
    proof {
        assert forall|s: Seq<char>|
            #[trigger] occurrences(x, s, x.len() as int) == occurrences(y, s, y.len() as int) by {
            if x.contains(s) {
                let i = choose|i: int| 0 <= i < x.len() && x[i] == s;
                assert(x[i] == s);
            } else if y.contains(s) {
                let i = choose|i: int| 0 <= i < y.len() && y[i] == s;
                assert(y[i] == s);
            } else {
                lemma_no_occurrence(x, s, x.len() as int);
                lemma_no_occurrence(y, s, y.len() as int);
            }
        }
    }
    true
}

fn names_eq(a: &Vec<&str>, b: &Vec<&str>) -> (r: bool)
    ensures
        r == (seen_views(a@) == seen_views(b@)),
{
    let ghost x = seen_views(a@);
    let ghost y = seen_views(b@);
    assert(x.len() == a@.len() && y.len() == b@.len());
    if a.len() != b.len() {
        return false;
    }
    let mut i: usize = 0;
    while i < a.len()
        invariant
            x == seen_views(a@),
            y == seen_views(b@),
            a.len() == b.len(),
            i <= a.len(),
            forall|k: int| 0 <= k < i ==> x[k] == y[k],
        decreases a.len() - i,
    {
        assert(x[i as int] == a@[i as int]@);
        assert(y[i as int] == b@[i as int]@);
        let c = chars_of(a[i]);
        if !is_text(c.as_slice(), b[i]) {
            return false;
        }
        i += 1;
    }
    assert(x =~= y);
    true
}

fn order_of(rd: &ResourceDef, natural: &Vec<&str>, given: &Vec<&str>) -> (r: String)
    requires
        seen_views(natural@) == natural_order(rd.model().bindings),
        seen_views(given@) == buffer_order(rd.model().constant_buffers),
    ensures
        r@ == order_text(rd.model()),
{
    let ghost d = seen_views(given@);
    if names_eq(natural, given) {
        return String::new();
    }
    let mut o = String::new();
    let mut i: usize = 0;
    while i < given.len()
        invariant
            d == seen_views(given@),
            i <= given.len(),
            o@ == spaced_names(d, i as int),
        decreases given.len() - i,
    {
        assert(d[i as int] == given@[i as int]@);
        push_text(&mut o, " ");
        push_text(&mut o, given[i]);
        i += 1;
    }
    let mut l = String::new();
    push_text(&mut l, "cborder");
    assert(l@ =~= "cborder"@);
    push_text(&mut l, o.as_str());
    push_text(&mut l, "\n");
    l
}

proof fn lemma_merged_none(rd: RdefModel, p: Option<ProgramModel>, ft: Spellings, k: int, n: int)
    requires
        0 <= k <= n,
        merged_items(rd, p, ft, k) is None,
    ensures
        merged_items(rd, p, ft, n) is None,
    decreases n - k,
{
    if k < n {
        lemma_merged_none(rd, p, ft, k + 1, n);
    }
}

/// What a binding is in the merged body.
fn emit_merged_item(rd: &ResourceDef, b: &ResourceBinding, p: Option<&Program>, ft: &FloatTable) -> (r:
    Option<String>)
    ensures
        match r {
            Some(s) => merged_item(rd.model(), b.model(), opt_model(p), ft@) == Some(s@),
            None => merged_item(rd.model(), b.model(), opt_model(p), ft@) is None,
        },
{
    if b.input_type == 0 {
        match find_buffer_named(&rd.constant_buffers, b.name.as_str()) {
            Some(c) => emit_cbuffer_block(
                c,
                Some(b.bind_point),
                b.flags,
                p,
                Some(b.bind_point),
                ft,
            ),
            None => None,
        }
    } else {
        emit_binding(b, &rd.constant_buffers)
    }
}

/// The merged body, where the bindings give all buffers.
fn emit_merged_body(rd: &ResourceDef, p: Option<&Program>, ft: &FloatTable) -> (r: Option<String>)
    ensures
        match r {
            Some(s) => merged_text(rd.model(), opt_model(p), ft@) == Some(s@),
            None => merged_text(rd.model(), opt_model(p), ft@) is None,
        },
{
    let ghost m = rd.model();
    let mut natural = names_of_bindings(&rd.bindings, true);
    let mut more = names_of_bindings(&rd.bindings, false);
    let ghost n0 = natural@;
    let ghost n1 = more@;
    natural.append(&mut more);
    proof {
        assert(m.bindings.len() == rd.bindings@.len());
        assert(seen_views(natural@) =~= seen_views(n0) + seen_views(n1));
    }
    let given = names_of_buffers(&rd.constant_buffers);
    if !hold_same_names(&natural, &given) {
        return None;
    }
    let mut o = String::new();
    let mut i: usize = 0;
    while i < rd.bindings.len()
        invariant
            m == rd.model(),
            i <= rd.bindings.len(),
            merged_items(m, opt_model(p), ft@, i as int) == Some(o@),
        decreases rd.bindings.len() - i,
    {
        let b = &rd.bindings[i];
        assert(m.bindings[i as int] == b.model());
        match emit_merged_item(rd, b, p, ft) {
            Some(l) => {
                push_text(&mut o, l.as_str());
            },
            None => {
                proof {
                    lemma_merged_none(m, opt_model(p), ft@, i as int + 1, m.bindings.len() as int);
                }
                return None;
            },
        }
        i += 1;
    }
    let mut l = order_of(rd, &natural, &given);
    push_text(&mut l, o.as_str());
    Some(l)
}

fn rd11_line_of(r: &Option<[u32; 8]>) -> (o: String)
    ensures
        o@ == rd11_line(*r),
{
    let mut o = String::new();
    match r {
        Some(e) => {
            push_text(&mut o, "rd11 ");
            assert(o@ =~= "rd11 "@);
            push_hex(&mut o, e[0] as u64);
            push_text(&mut o, " ");
            push_hex(&mut o, e[1] as u64);
            push_text(&mut o, " ");
            push_hex(&mut o, e[2] as u64);
            push_text(&mut o, " ");
            push_hex(&mut o, e[3] as u64);
            push_text(&mut o, " ");
            push_hex(&mut o, e[4] as u64);
            push_text(&mut o, " ");
            push_hex(&mut o, e[5] as u64);
            push_text(&mut o, " ");
            push_hex(&mut o, e[6] as u64);
            push_text(&mut o, " ");
            push_hex(&mut o, e[7] as u64);
            push_text(&mut o, "\n");
        },
        None => {},
    }
    o
}

fn head_of(rd: &ResourceDef) -> (o: String)
    ensures
        o@ == head_text(rd.model()),
{
    let mut o = String::new();
    push_text(&mut o, "target ");
    assert(o@ =~= "target "@);
    push_hex_padded(&mut o, rd.target_version as u64, 8);
    push_text(&mut o, "\nflags ");
    push_hex(&mut o, rd.compile_flags as u64);
    push_text(&mut o, "\ncreator ");
    push_text(&mut o, rd.creator.as_str());
    push_text(&mut o, "\n");
    let r = rd11_line_of(&rd.rd11_extra);
    push_text(&mut o, r.as_str());
    push_text(&mut o, "\n");
    o
}

fn front_of(rd: &ResourceDef) -> (r: Option<String>)
    ensures
        match r {
            Some(s) => front_text(rd.model()) == Some(s@),
            None => front_text(rd.model()) is None,
        },
{
    assert(rd.model().constant_buffers.len() == rd.constant_buffers@.len());
    match struct_blocks_of(&rd.constant_buffers) {
        None => None,
        Some((blocks, any)) => {
            let mut o = head_of(rd);
            push_text(&mut o, blocks.as_str());
            let sep = if any { "\n" } else { "" };
            proof {
                reveal_strlit("");
                assert(""@ =~= Seq::empty());
            }
            push_text(&mut o, sep);
            Some(o)
        },
    }
}

/// The two texts one behind the other.
fn joined(a: &String, b: &String) -> (r: String)
    ensures
        r@ == a@ + b@,
{
    let mut o = String::new();
    push_text(&mut o, a.as_str());
    assert(o@ =~= a@);
    push_text(&mut o, b.as_str());
    o
}

pub(crate) fn bytes_eq(a: &[u8], b: &[u8]) -> (r: bool)
    ensures
        r == (a@ == b@),
{
    if a.len() != b.len() {
        return false;
    }
    let mut i: usize = 0;
    while i < a.len()
        invariant
            a.len() == b.len(),
            i <= a.len(),
            forall|k: int| 0 <= k < i ==> a@[k] == b@[k],
        decreases a.len() - i,
    {
        if a[i] != b[i] {
            return false;
        }
        i += 1;
    }
    assert(a@ =~= b@);
    true
}

fn does_reproduce(text: &String, rd: &ResourceDef, p: Option<&Program>, ft: &FloatTable) -> (r: bool)
    ensures
        r == reproduces(text@, rd.model(), opt_model(p), ft@),
{
    match rdef_from_hlsl(text.as_str(), p, ft) {
        Some(rd2) => {
            let a = rd2.write_payload();
            let b = rd.write_payload();
            bytes_eq(a.as_slice(), b.as_slice())
        },
        None => false,
    }
}

/// Write resource definitions in HLSL form; `None` where no such text reads as the
/// same bytes. The flag of a variable is left out where the program gives it.
pub fn rdef_to_hlsl(rd: &ResourceDef, program: Option<&Program>, floats: &FloatTable) -> (r: Option<
    String,
>)
    ensures
        match r {
            Some(s) => hlsl_text(
                rd.model(),
                match program {
                    Some(x) => Some(x.model()),
                    None => None,
                },
                floats@,
            ) == Some(s@),
            None => hlsl_text(
                rd.model(),
                match program {
                    Some(x) => Some(x.model()),
                    None => None,
                },
                floats@,
            ) is None,
        },
{
    let front = match front_of(rd) {
        Some(s) => s,
        None => {
            return None;
        },
    };
    match emit_merged_body(rd, program, floats) {
        Some(body) => {
            let full = joined(&front, &body);
            if does_reproduce(&full, rd, program, floats) {
                return Some(full);
            }
        },
        None => {},
    }
    match emit_twosection_body(rd, program, floats) {
        Some(body) => {
            let full = joined(&front, &body);
            if does_reproduce(&full, rd, program, floats) {
                Some(full)
            } else {
                None
            }
        },
        None => None,
    }
}

} // verus!
