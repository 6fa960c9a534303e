//! Resource definitions as lines of `key=value`.
//!
//! Header lines give the shader model, the compile flags, the creator and the
//! further header. Then come `binding` and `cbuffer` lines, a buffer followed by
//! the `var` lines of its variables, and a variable by the `member` lines of its
//! type.

use vstd::prelude::*;

use crate::chunks::rdef::{
    BindingModel, CBufferDef, CBufferModel, CBufferVariable, MemberDesc, MemberModel, RdefModel,
    ResourceBinding, ResourceDef, TypeDesc, TypeModel, VariableModel, binding_models,
    cbuffer_models, lemma_type_model, member_models, variable_models,
};
use crate::grammar::shex::reading::word_of_int;
use crate::grammar::shex::text::signed_value;
use crate::lines::{
    lines_of, split, split_at_first, split_chars, split_once, text_lines, trim, trimmed, views,
    words, words_of,
};
use crate::numerals::{
    dec_text, digit_of, digit_value, hex_padded, hex_text, int_text, parse_int, parse_nat,
    parse_signed, parse_unsigned, push_dec, push_hex, push_hex_padded, push_int,
};
use crate::text::{
    chars_of, is_text, push_text, string_of, strip_prefix, strip_text,
};

verus! {

// ---------------------------------------------------------------------------
// Writing
// ---------------------------------------------------------------------------

/// Four words in hexadecimal, separated by commas.
pub open spec fn hex4_text(e: [u32; 4]) -> Seq<char> {
    hex_text(e[0] as nat).push(',') + hex_text(e[1] as nat).push(',') + hex_text(e[2] as nat).push(
        ',',
    ) + hex_text(e[3] as nat)
}

/// What a type adds to its line.
pub open spec fn type_text(t: TypeModel) -> Seq<char> {
    " class="@ + dec_text(t.class as nat) + " base="@ + dec_text(t.var_type as nat) + " rows="@
        + dec_text(t.rows as nat) + " cols="@ + dec_text(t.columns as nat) + " elements="@
        + dec_text(t.elements as nat) + (if t.name.len() == 0 {
        Seq::empty()
    } else {
        " typename="@ + t.name
    }) + (match t.sm5_extra {
        Some(e) => " sm5="@ + hex4_text(e),
        None => Seq::empty(),
    })
}

/// The first `n` bytes in hexadecimal.
pub open spec fn bytes_text(b: Seq<u8>, n: int) -> Seq<char>
    decreases n,
{
    if n <= 0 {
        Seq::empty()
    } else {
        bytes_text(b, n - 1) + hex_padded(b[n - 1] as nat, 2)
    }
}

/// A slot range, where there is one.
pub open spec fn slots_text(key: Seq<char>, start: Option<u32>, size: Option<u32>) -> Seq<char> {
    match start {
        Some(s) => key + int_text(signed_value(s)) + ","@ + dec_text(
            (match size {
                Some(n) => n,
                None => 0,
            }) as nat,
        ),
        None => Seq::empty(),
    }
}

/// A default value, where there is one.
pub open spec fn default_text(b: Seq<u8>) -> Seq<char> {
    if b.len() == 0 {
        Seq::empty()
    } else {
        " default="@ + bytes_text(b, b.len() as int)
    }
}

/// The line of a variable.
pub open spec fn var_line(v: VariableModel) -> Seq<char> {
    "  var "@ + v.name + " offset="@ + dec_text(v.offset as nat) + " size="@ + dec_text(
        v.size as nat,
    ) + " flags="@ + hex_text(v.flags as nat) + type_text(v.var_type) + slots_text(
        " tex="@,
        v.texture_start,
        v.texture_size,
    ) + slots_text(" samp="@, v.sampler_start, v.sampler_size) + default_text(v.default_value)
}

/// The line of a member.
pub open spec fn member_line(m: MemberModel) -> Seq<char> {
    "    member "@ + m.name + " offset="@ + dec_text(m.offset as nat) + type_text(m.member_type)
}

/// The lines of the first `n` members.
pub open spec fn members_text(ms: Seq<MemberModel>, n: int) -> Seq<char>
    decreases n,
{
    if n <= 0 {
        Seq::empty()
    } else {
        members_text(ms, n - 1) + member_line(ms[n - 1]).push('\n')
    }
}

/// The lines of the first `n` variables, each followed by its members.
pub open spec fn vars_text(vs: Seq<VariableModel>, n: int) -> Seq<char>
    decreases n,
{
    if n <= 0 {
        Seq::empty()
    } else {
        vars_text(vs, n - 1) + var_line(vs[n - 1]).push('\n') + members_text(
            vs[n - 1].var_type.members,
            vs[n - 1].var_type.members.len() as int,
        )
    }
}

/// The line of a constant buffer.
pub open spec fn cbuffer_line(c: CBufferModel) -> Seq<char> {
    "cbuffer "@ + c.name + " size="@ + dec_text(c.size as nat) + " flags="@ + hex_text(
        c.flags as nat,
    ) + " kind="@ + dec_text(c.cb_type as nat)
}

/// The lines of the first `n` buffers, each followed by its variables.
pub open spec fn cbuffers_text(cs: Seq<CBufferModel>, n: int) -> Seq<char>
    decreases n,
{
    if n <= 0 {
        Seq::empty()
    } else {
        cbuffers_text(cs, n - 1) + cbuffer_line(cs[n - 1]).push('\n') + vars_text(
            cs[n - 1].variables,
            cs[n - 1].variables.len() as int,
        )
    }
}

/// The line of a binding.
pub open spec fn binding_line(b: BindingModel) -> Seq<char> {
    "binding "@ + b.name + " input="@ + dec_text(b.input_type as nat) + " return="@ + dec_text(
        b.return_type as nat,
    ) + " dim="@ + dec_text(b.dimension as nat) + " samples="@ + dec_text(b.num_samples as nat)
        + " slot="@ + dec_text(b.bind_point as nat) + " count="@ + dec_text(b.bind_count as nat)
        + " flags="@ + hex_text(b.flags as nat)
}

/// The lines of the first `n` bindings.
pub open spec fn bindings_text(bs: Seq<BindingModel>, n: int) -> Seq<char>
    decreases n,
{
    if n <= 0 {
        Seq::empty()
    } else {
        bindings_text(bs, n - 1) + binding_line(bs[n - 1]).push('\n')
    }
}

/// Eight words in hexadecimal, separated by commas.
pub open spec fn hex8_list(e: [u32; 8]) -> Seq<char> {
    hex_text(e[0] as nat).push(',') + hex_text(e[1] as nat).push(',') + hex_text(e[2] as nat).push(
        ',',
    ) + hex_text(e[3] as nat).push(',') + hex_text(e[4] as nat).push(',') + hex_text(
        e[5] as nat,
    ).push(',') + hex_text(e[6] as nat).push(',') + hex_text(e[7] as nat)
}

/// The line of the further header, where there is one.
pub open spec fn rd11_text(r: Option<[u32; 8]>) -> Seq<char> {
    match r {
        Some(e) => ("rd11="@ + hex8_list(e)).push('\n'),
        None => Seq::empty(),
    }
}

/// The header lines.
pub open spec fn header_text(rd: RdefModel) -> Seq<char> {
    ("version=0x"@ + hex_padded(rd.target_version as nat, 8)).push('\n') + ("flags=0x"@ + hex_text(
        rd.compile_flags as nat,
    )).push('\n') + ("creator="@ + rd.creator).push('\n') + rd11_text(rd.rd11_extra)
}

/// The text of resource definitions without nested structs.
pub open spec fn rdef_text(rd: RdefModel) -> Seq<char> {
    header_text(rd) + bindings_text(rd.bindings, rd.bindings.len() as int) + cbuffers_text(
        rd.constant_buffers,
        rd.constant_buffers.len() as int,
    )
}

/// Whether a member of the type is itself a struct.
pub open spec fn type_nests(t: TypeModel) -> bool {
    exists|i: int| 0 <= i < t.members.len() && #[trigger] t.members[i].member_type.members.len() > 0
}

/// Whether a variable of the buffer has a nested struct.
pub open spec fn cbuffer_nests(c: CBufferModel) -> bool {
    exists|i: int| 0 <= i < c.variables.len() && type_nests(#[trigger] c.variables[i].var_type)
}

/// Whether a variable of any buffer has a nested struct.
pub open spec fn rdef_nests(rd: RdefModel) -> bool {
    exists|i: int|
        0 <= i < rd.constant_buffers.len() && cbuffer_nests(#[trigger] rd.constant_buffers[i])
}

pub(crate) fn write_hex4(o: &mut String, e: &[u32; 4])
    ensures
        final(o)@ == old(o)@ + hex4_text(*e),
{
    let mut l = String::new();
    push_hex(&mut l, e[0] as u64);
    l.push(',');
    assert(l@ =~= hex_text(e[0] as nat).push(','));
    push_hex(&mut l, e[1] as u64);
    l.push(',');
    assert(l@ =~= hex_text(e[0] as nat).push(',') + hex_text(e[1] as nat).push(','));
    push_hex(&mut l, e[2] as u64);
    l.push(',');
    push_hex(&mut l, e[3] as u64);
    assert(l@ =~= hex4_text(*e));
    push_text(o, l.as_str());
}

fn write_type(o: &mut String, t: &TypeDesc)
    ensures
        final(o)@ == old(o)@ + type_text(t.model()),
{
    let mut l = String::new();
    push_text(&mut l, " class=");
    assert(l@ =~= " class="@);
    push_dec(&mut l, t.class as u64);
    push_text(&mut l, " base=");
    push_dec(&mut l, t.var_type as u64);
    push_text(&mut l, " rows=");
    push_dec(&mut l, t.rows as u64);
    push_text(&mut l, " cols=");
    push_dec(&mut l, t.columns as u64);
    push_text(&mut l, " elements=");
    push_dec(&mut l, t.elements as u64);
    let mut n = String::new();
    if !t.name.as_str().is_empty() {
        push_text(&mut n, " typename=");
        assert(n@ =~= " typename="@);
        push_text(&mut n, t.name.as_str());
    }
    push_text(&mut l, n.as_str());
    let mut e = String::new();
    match &t.sm5_extra {
        Some(x) => {
            push_text(&mut e, " sm5=");
            assert(e@ =~= " sm5="@);
            write_hex4(&mut e, x);
        },
        None => {},
    }
    push_text(&mut l, e.as_str());
    push_text(o, l.as_str());
}

pub(crate) fn write_bytes(o: &mut String, b: &[u8])
    ensures
        final(o)@ == old(o)@ + bytes_text(b@, b@.len() as int),
{
    let mut l = String::new();
    let mut i: usize = 0;
    while i < b.len()
        invariant
            i <= b.len(),
            l@ == bytes_text(b@, i as int),
        decreases b.len() - i,
    {
        push_hex_padded(&mut l, b[i] as u64, 2);
        i += 1;
    }
    push_text(o, l.as_str());
}

pub(crate) fn write_slots(o: &mut String, key: &str, start: Option<u32>, size: Option<u32>)
    ensures
        final(o)@ == old(o)@ + slots_text(key@, start, size),
{
    let mut l = String::new();
    match start {
        Some(s) => {
            push_text(&mut l, key);
            assert(l@ =~= key@);
            let i: i64 = if s < 0x8000_0000 { s as i64 } else { s as i64 - 0x1_0000_0000 };
            push_int(&mut l, i);
            push_text(&mut l, ",");
            let n: u32 = match size {
                Some(n) => n,
                None => 0,
            };
            push_dec(&mut l, n as u64);
        },
        None => {},
    }
    assert(l@ =~= slots_text(key@, start, size));
    push_text(o, l.as_str());
}

fn write_default(o: &mut String, b: &Vec<u8>)
    ensures
        final(o)@ == old(o)@ + default_text(b@),
{
    let mut l = String::new();
    if b.len() > 0 {
        push_text(&mut l, " default=");
        assert(l@ =~= " default="@);
        write_bytes(&mut l, b.as_slice());
    }
    push_text(o, l.as_str());
}

fn var_line_of(v: &CBufferVariable) -> (l: String)
    ensures
        l@ == var_line(v.model()),
{
    let mut l = String::new();
    push_text(&mut l, "  var ");
    assert(l@ =~= "  var "@);
    push_text(&mut l, v.name.as_str());
    push_text(&mut l, " offset=");
    push_dec(&mut l, v.offset as u64);
    push_text(&mut l, " size=");
    push_dec(&mut l, v.size as u64);
    push_text(&mut l, " flags=");
    push_hex(&mut l, v.flags as u64);
    write_type(&mut l, &v.var_type);
    write_slots(&mut l, " tex=", v.texture_start, v.texture_size);
    write_slots(&mut l, " samp=", v.sampler_start, v.sampler_size);
    write_default(&mut l, &v.default_value);
    l
}

fn member_line_of(m: &MemberDesc) -> (l: String)
    ensures
        l@ == member_line(m.model()),
{
    let mut l = String::new();
    push_text(&mut l, "    member ");
    assert(l@ =~= "    member "@);
    push_text(&mut l, m.name.as_str());
    push_text(&mut l, " offset=");
    push_dec(&mut l, m.offset as u64);
    write_type(&mut l, &m.member_type);
    l
}

fn binding_line_of(b: &ResourceBinding) -> (l: String)
    ensures
        l@ == binding_line(b.model()),
{
    let mut l = String::new();
    push_text(&mut l, "binding ");
    assert(l@ =~= "binding "@);
    push_text(&mut l, b.name.as_str());
    push_text(&mut l, " input=");
    push_dec(&mut l, b.input_type as u64);
    push_text(&mut l, " return=");
    push_dec(&mut l, b.return_type as u64);
    push_text(&mut l, " dim=");
    push_dec(&mut l, b.dimension as u64);
    push_text(&mut l, " samples=");
    push_dec(&mut l, b.num_samples as u64);
    push_text(&mut l, " slot=");
    push_dec(&mut l, b.bind_point as u64);
    push_text(&mut l, " count=");
    push_dec(&mut l, b.bind_count as u64);
    push_text(&mut l, " flags=");
    push_hex(&mut l, b.flags as u64);
    l
}

fn cbuffer_line_of(c: &CBufferDef) -> (l: String)
    ensures
        l@ == cbuffer_line(c.model()),
{
    let mut l = String::new();
    push_text(&mut l, "cbuffer ");
    assert(l@ =~= "cbuffer "@);
    push_text(&mut l, c.name.as_str());
    push_text(&mut l, " size=");
    push_dec(&mut l, c.size as u64);
    push_text(&mut l, " flags=");
    push_hex(&mut l, c.flags as u64);
    push_text(&mut l, " kind=");
    push_dec(&mut l, c.cb_type as u64);
    l
}

/// Append a line and a line break.
fn push_line(o: &mut String, l: String)
    ensures
        final(o)@ == old(o)@ + l@.push('\n'),
{
    push_text(o, l.as_str());
    o.push('\n');
    assert(o@ =~= old(o)@ + l@.push('\n'));
}

fn members_of(members: &Vec<MemberDesc>) -> (o: String)
    ensures
        o@ == members_text(member_models(members@), members@.len() as int),
{
    let ghost ms = member_models(members@);
    let mut o = String::new();
    let mut i: usize = 0;
    while i < members.len()
        invariant
            i <= members.len(),
            ms == member_models(members@),
            o@ == members_text(ms, i as int),
        decreases members.len() - i,
    {
        assert(ms[i as int] == members@[i as int].model());
        push_line(&mut o, member_line_of(&members[i]));
        i += 1;
    }
    o
}

fn vars_of(vars: &Vec<CBufferVariable>) -> (o: String)
    ensures
        o@ == vars_text(variable_models(vars@), vars@.len() as int),
{
    let ghost vs = variable_models(vars@);
    let mut o = String::new();
    let mut i: usize = 0;
    while i < vars.len()
        invariant
            i <= vars.len(),
            vs == variable_models(vars@),
            o@ == vars_text(vs, i as int),
        decreases vars.len() - i,
    {
        assert(vs[i as int] == vars@[i as int].model());
        proof {
            lemma_type_model(vars@[i as int].var_type);
        }
        push_line(&mut o, var_line_of(&vars[i]));
        let m = members_of(&vars[i].var_type.members);
        push_text(&mut o, m.as_str());
        i += 1;
    }
    o
}

fn cbuffers_of(cbs: &Vec<CBufferDef>) -> (o: String)
    ensures
        o@ == cbuffers_text(cbuffer_models(cbs@), cbs@.len() as int),
{
    let ghost cs = cbuffer_models(cbs@);
    let mut o = String::new();
    let mut i: usize = 0;
    while i < cbs.len()
        invariant
            i <= cbs.len(),
            cs == cbuffer_models(cbs@),
            o@ == cbuffers_text(cs, i as int),
        decreases cbs.len() - i,
    {
        assert(cs[i as int] == cbs@[i as int].model());
        push_line(&mut o, cbuffer_line_of(&cbs[i]));
        let v = vars_of(&cbs[i].variables);
        push_text(&mut o, v.as_str());
        i += 1;
    }
    o
}

fn bindings_of(bs: &Vec<ResourceBinding>) -> (o: String)
    ensures
        o@ == bindings_text(binding_models(bs@), bs@.len() as int),
{
    let ghost ms = binding_models(bs@);
    let mut o = String::new();
    let mut i: usize = 0;
    while i < bs.len()
        invariant
            i <= bs.len(),
            ms == binding_models(bs@),
            o@ == bindings_text(ms, i as int),
        decreases bs.len() - i,
    {
        assert(ms[i as int] == bs@[i as int].model());
        push_line(&mut o, binding_line_of(&bs[i]));
        i += 1;
    }
    o
}

fn rd11_of(r: &Option<[u32; 8]>) -> (o: String)
    ensures
        o@ == rd11_text(*r),
{
    let mut o = String::new();
    match r {
        Some(e) => {
            push_text(&mut o, "rd11=");
            let mut l = String::new();
            push_hex(&mut l, e[0] as u64);
            l.push(',');
            assert(l@ =~= hex_text(e[0] as nat).push(','));
            let ghost l0 = l@;
            push_hex(&mut l, e[1] as u64);
            l.push(',');
            assert(l@ =~= l0 + hex_text(e[1] as nat).push(','));
            let ghost l1 = l@;
            push_hex(&mut l, e[2] as u64);
            l.push(',');
            assert(l@ =~= l1 + hex_text(e[2] as nat).push(','));
            let ghost l2 = l@;
            push_hex(&mut l, e[3] as u64);
            l.push(',');
            assert(l@ =~= l2 + hex_text(e[3] as nat).push(','));
            let ghost l3 = l@;
            push_hex(&mut l, e[4] as u64);
            l.push(',');
            assert(l@ =~= l3 + hex_text(e[4] as nat).push(','));
            let ghost l4 = l@;
            push_hex(&mut l, e[5] as u64);
            l.push(',');
            assert(l@ =~= l4 + hex_text(e[5] as nat).push(','));
            let ghost l5 = l@;
            push_hex(&mut l, e[6] as u64);
            l.push(',');
            assert(l@ =~= l5 + hex_text(e[6] as nat).push(','));
            push_hex(&mut l, e[7] as u64);
            push_text(&mut o, l.as_str());
            o.push('\n');
            assert(o@ =~= rd11_text(*r));
        },
        None => {},
    }
    o
}

fn header_of(rd: &ResourceDef) -> (o: String)
    ensures
        o@ == header_text(rd.model()),
{
    let mut a = String::new();
    push_text(&mut a, "version=0x");
    assert(a@ =~= "version=0x"@);
    push_hex_padded(&mut a, rd.target_version as u64, 8);
    let mut b = String::new();
    push_text(&mut b, "flags=0x");
    assert(b@ =~= "flags=0x"@);
    push_hex(&mut b, rd.compile_flags as u64);
    let mut c = String::new();
    push_text(&mut c, "creator=");
    assert(c@ =~= "creator="@);
    push_text(&mut c, rd.creator.as_str());
    let ghost a0 = a@;
    let mut o = String::new();
    push_line(&mut o, a);
    assert(o@ =~= a0.push('\n'));
    push_line(&mut o, b);
    push_line(&mut o, c);
    let d = rd11_of(&rd.rd11_extra);
    push_text(&mut o, d.as_str());
    o
}

fn has_nested_struct(rd: &ResourceDef) -> (r: bool)
    ensures
        r == rdef_nests(rd.model()),
{
    let ghost m = rd.model();
    let mut i: usize = 0;
    while i < rd.constant_buffers.len()
        invariant
            m == rd.model(),
            i <= rd.constant_buffers.len(),
            forall|k: int| 0 <= k < i ==> !cbuffer_nests(#[trigger] m.constant_buffers[k]),
        decreases rd.constant_buffers.len() - i,
    {
        let cb = &rd.constant_buffers[i];
        assert(m.constant_buffers[i as int] == cb.model());
        let mut j: usize = 0;
        while j < cb.variables.len()
            invariant
                m == rd.model(),
                i < rd.constant_buffers.len(),
                m.constant_buffers[i as int] == cb.model(),
                j <= cb.variables.len(),
                forall|k: int|
                    0 <= k < j ==> !type_nests(#[trigger] cb.model().variables[k].var_type),
            decreases cb.variables.len() - j,
        {
            let v = &cb.variables[j];
            assert(cb.model().variables[j as int] == v.model());
            proof {
                lemma_type_model(v.var_type);
            }
            let mut k: usize = 0;
            while k < v.var_type.members.len()
                invariant
                    m == rd.model(),
                    i < rd.constant_buffers.len(),
                    m.constant_buffers[i as int] == cb.model(),
                    j < cb.variables.len(),
                    cb.model().variables[j as int] == v.model(),
                    v.var_type.model().members == member_models(v.var_type.members@),
                    k <= v.var_type.members.len(),
                    forall|n: int|
                        0 <= n < k ==> !(#[trigger] v.var_type.model().members[n].member_type.members.len()
                            > 0),
                decreases v.var_type.members.len() - k,
            {
                let t = &v.var_type.members[k].member_type;
                proof {
                    lemma_type_model(*t);
                }
                assert(v.var_type.model().members[k as int].member_type == t.model());
                if t.members.len() > 0 {
                    assert(type_nests(cb.model().variables[j as int].var_type)) by {
                        assert(v.var_type.model().members[k as int].member_type.members.len() > 0);
                    }
                    assert(cbuffer_nests(m.constant_buffers[i as int]));
                    return true;
                }
                k += 1;
            }
            j += 1;
        }
        i += 1;
    }
    false
}

/// Write resource definitions as lines of `key=value`; `None` where a struct is
/// nested in a struct.
pub fn rdef_to_text(rd: &ResourceDef) -> (r: Option<String>)
    ensures
        match r {
            Some(o) => !rdef_nests(rd.model()) && o@ == rdef_text(rd.model()),
            None => rdef_nests(rd.model()),
        },
{
    if has_nested_struct(rd) {
        return None;
    }
    let mut o = header_of(rd);
    let b = bindings_of(&rd.bindings);
    push_text(&mut o, b.as_str());
    let c = cbuffers_of(&rd.constant_buffers);
    push_text(&mut o, c.as_str());
    Some(o)
}

// ---------------------------------------------------------------------------
// Reading
// ---------------------------------------------------------------------------

/// The value of the last word `key=value` of those from number `from` up to
/// number `n`.
pub open spec fn value_for(ws: Seq<Seq<char>>, from: int, n: int, key: Seq<char>) -> Option<
    Seq<char>,
>
    decreases n,
{
    if n <= from || n <= 0 {
        None
    } else {
        match split_once(ws[n - 1], '=') {
            Some((k, v)) if k == key => Some(v),
            _ => value_for(ws, from, n - 1, key),
        }
    }
}

/// The value of `key` among the words of a line behind the name at its front.
pub open spec fn value_of_key(ws: Seq<Seq<char>>, key: Seq<char>) -> Option<Seq<char>> {
    value_for(ws, 1, ws.len() as int, key)
}

/// The decimal value of `key`.
pub open spec fn dec_of_key(ws: Seq<Seq<char>>, key: Seq<char>) -> Option<u32> {
    match value_of_key(ws, key) {
        Some(v) => word_in(v, 10),
        None => None,
    }
}

/// The hexadecimal value of `key`.
pub open spec fn hex_of_key(ws: Seq<Seq<char>>, key: Seq<char>) -> Option<u32> {
    match value_of_key(ws, key) {
        Some(v) => word_in(v, 16),
        None => None,
    }
}

/// A word in base `radix`.
pub open spec fn word_in(s: Seq<char>, radix: nat) -> Option<u32> {
    match parse_nat(s, radix, 0xffff_ffff) {
        Some(v) => Some(v as u32),
        None => None,
    }
}

/// Part number `k` as a hexadecimal word, white space around it aside.
pub open spec fn hex_part(parts: Seq<Seq<char>>, k: int) -> Option<u32> {
    if k < parts.len() {
        word_in(trim(parts[k]), 16)
    } else {
        None
    }
}

/// The pairs of hexadecimal digits in `s` as bytes.
pub open spec fn read_hex_bytes(s: Seq<char>) -> Option<Seq<u8>>
    decreases s.len(),
{
    if s.len() == 0 {
        Some(Seq::empty())
    } else if s.len() < 2 {
        None
    } else {
        match (
            read_hex_bytes(s.take(s.len() - 2)),
            digit_value(s[s.len() - 2], 16),
            digit_value(s[s.len() - 1], 16),
        ) {
            (Some(b), Some(hi), Some(lo)) => Some(b.push((hi * 16 + lo) as u8)),
            _ => None,
        }
    }
}

/// The four words of shader model five, where a line has them.
pub open spec fn read_sm5(ws: Seq<Seq<char>>) -> Option<Option<[u32; 4]>> {
    match value_of_key(ws, "sm5"@) {
        None => Some(None),
        Some(v) => {
            let p = split(v, ',');
            match (word_at_part(p, 0), word_at_part(p, 1), word_at_part(p, 2), word_at_part(p, 3)) {
                (Some(a), Some(b), Some(c), Some(d)) => Some(Some([a, b, c, d])),
                _ => None,
            }
        },
    }
}

/// Part number `k` as a hexadecimal word.
pub open spec fn word_at_part(parts: Seq<Seq<char>>, k: int) -> Option<u32> {
    if k < parts.len() {
        word_in(parts[k], 16)
    } else {
        None
    }
}

/// The type on a line, without members.
pub open spec fn read_type(ws: Seq<Seq<char>>) -> Option<TypeModel> {
    match (
        read_sm5(ws),
        dec_of_key(ws, "class"@),
        dec_of_key(ws, "base"@),
        dec_of_key(ws, "rows"@),
        dec_of_key(ws, "cols"@),
        dec_of_key(ws, "elements"@),
    ) {
        (Some(sm5_extra), Some(class), Some(base), Some(rows), Some(cols), Some(elements)) => Some(
            TypeModel {
                class: class as u16,
                var_type: base as u16,
                rows: rows as u16,
                columns: cols as u16,
                elements: elements as u16,
                members: Seq::empty(),
                sm5_extra,
                name: match value_of_key(ws, "typename"@) {
                    Some(n) => n,
                    None => Seq::empty(),
                },
            },
        ),
        _ => None,
    }
}

/// The binding on a line.
pub open spec fn read_binding(ws: Seq<Seq<char>>) -> Option<BindingModel> {
    if ws.len() == 0 {
        None
    } else {
        match (
            dec_of_key(ws, "input"@),
            dec_of_key(ws, "return"@),
            dec_of_key(ws, "dim"@),
            dec_of_key(ws, "samples"@),
            dec_of_key(ws, "slot"@),
            dec_of_key(ws, "count"@),
            hex_of_key(ws, "flags"@),
        ) {
            (
                Some(input_type),
                Some(return_type),
                Some(dimension),
                Some(num_samples),
                Some(bind_point),
                Some(bind_count),
                Some(flags),
            ) => Some(
                BindingModel {
                    name: ws[0],
                    input_type,
                    return_type,
                    dimension,
                    num_samples,
                    bind_point,
                    bind_count,
                    flags,
                },
            ),
            _ => None,
        }
    }
}

/// The constant buffer on a line, without variables.
pub open spec fn read_cbuffer(ws: Seq<Seq<char>>) -> Option<CBufferModel> {
    if ws.len() == 0 {
        None
    } else {
        match (dec_of_key(ws, "size"@), hex_of_key(ws, "flags"@), dec_of_key(ws, "kind"@)) {
            (Some(size), Some(flags), Some(cb_type)) => Some(
                CBufferModel { name: ws[0], variables: Seq::empty(), size, flags, cb_type },
            ),
            _ => None,
        }
    }
}

/// The member on a line.
pub open spec fn read_member(ws: Seq<Seq<char>>) -> Option<MemberModel> {
    if ws.len() == 0 {
        None
    } else {
        match (read_type(ws), dec_of_key(ws, "offset"@)) {
            (Some(member_type), Some(offset)) => Some(
                MemberModel { name: ws[0], member_type, offset },
            ),
            _ => None,
        }
    }
}

/// A slot range, where a line has it.
pub open spec fn read_slots(ws: Seq<Seq<char>>, key: Seq<char>) -> Option<Option<(u32, u32)>> {
    match value_of_key(ws, key) {
        None => Some(None),
        Some(v) => match split_once(v, ',') {
            None => None,
            Some((a, b)) => match (parse_int(a, 0x7fff_ffff), word_in(b, 10)) {
                (Some(start), Some(size)) => Some(Some((word_of_int(start), size))),
                _ => None,
            },
        },
    }
}

/// A default value, where a line has one.
pub open spec fn read_default(ws: Seq<Seq<char>>) -> Option<Seq<u8>> {
    match value_of_key(ws, "default"@) {
        None => Some(Seq::empty()),
        Some(v) => read_hex_bytes(v),
    }
}

/// The first of two numbers, where there are any.
pub open spec fn first_of(p: Option<(u32, u32)>) -> Option<u32> {
    match p {
        Some((a, _)) => Some(a),
        None => None,
    }
}

/// The second of two numbers, where there are any.
pub open spec fn second_of(p: Option<(u32, u32)>) -> Option<u32> {
    match p {
        Some((_, b)) => Some(b),
        None => None,
    }
}

/// The variable on a line.
pub open spec fn read_var(ws: Seq<Seq<char>>) -> Option<VariableModel> {
    if ws.len() == 0 {
        None
    } else {
        match (
            read_slots(ws, "tex"@),
            read_slots(ws, "samp"@),
            read_default(ws),
            read_type(ws),
            dec_of_key(ws, "offset"@),
            dec_of_key(ws, "size"@),
            hex_of_key(ws, "flags"@),
        ) {
            (
                Some(tex),
                Some(samp),
                Some(default_value),
                Some(var_type),
                Some(offset),
                Some(size),
                Some(flags),
            ) => Some(
                VariableModel {
                    name: ws[0],
                    offset,
                    size,
                    flags,
                    var_type,
                    default_value,
                    texture_start: first_of(tex),
                    texture_size: second_of(tex),
                    sampler_start: first_of(samp),
                    sampler_size: second_of(samp),
                },
            ),
            _ => None,
        }
    }
}

/// A hexadecimal number, with or without `0x`, white space around it aside.
pub open spec fn read_hex0x(s: Seq<char>) -> Option<u32> {
    match strip_prefix(trim(s), "0x"@) {
        Some(b) => word_in(b, 16),
        None => word_in(trim(s), 16),
    }
}

/// The eight words of the further header.
pub open spec fn read_rd11(v: Seq<char>) -> Option<[u32; 8]> {
    let p = split(v, ',');
    match (
        hex_part(p, 0),
        hex_part(p, 1),
        hex_part(p, 2),
        hex_part(p, 3),
        hex_part(p, 4),
        hex_part(p, 5),
        hex_part(p, 6),
        hex_part(p, 7),
    ) {
        (Some(a), Some(b), Some(c), Some(d), Some(e), Some(f), Some(g), Some(h)) => Some(
            [a, b, c, d, e, f, g, h],
        ),
        _ => None,
    }
}

/// Word number `k` as a hexadecimal number.
pub open spec fn hex_word(ws: Seq<Seq<char>>, k: int) -> Option<u32> {
    if k < ws.len() {
        word_in(ws[k], 16)
    } else {
        None
    }
}

/// The eight words of the further header.
pub open spec fn read_rd11_words(ws: Seq<Seq<char>>) -> Option<[u32; 8]> {
    match (
        hex_word(ws, 0),
        hex_word(ws, 1),
        hex_word(ws, 2),
        hex_word(ws, 3),
        hex_word(ws, 4),
        hex_word(ws, 5),
        hex_word(ws, 6),
        hex_word(ws, 7),
    ) {
        (Some(a), Some(b), Some(c), Some(d), Some(e), Some(f), Some(g), Some(h)) => Some(
            [a, b, c, d, e, f, g, h],
        ),
        _ => None,
    }
}

/// The buffer with a variable more.
pub open spec fn with_var(c: CBufferModel, v: VariableModel) -> CBufferModel {
    CBufferModel { variables: c.variables.push(v), ..c }
}

/// The variable with a member more in its type.
pub open spec fn with_member(v: VariableModel, m: MemberModel) -> VariableModel {
    VariableModel {
        var_type: TypeModel { members: v.var_type.members.push(m), ..v.var_type },
        ..v
    }
}

/// The definitions with a variable more in their last buffer.
pub open spec fn add_var(rd: RdefModel, v: VariableModel) -> Option<RdefModel> {
    let cs = rd.constant_buffers;
    if cs.len() == 0 {
        None
    } else {
        Some(RdefModel { constant_buffers: cs.drop_last().push(with_var(cs.last(), v)), ..rd })
    }
}

/// The definitions with a member more in the last variable of their last buffer.
pub open spec fn add_member(rd: RdefModel, m: MemberModel) -> Option<RdefModel> {
    let cs = rd.constant_buffers;
    if cs.len() == 0 || cs.last().variables.len() == 0 {
        None
    } else {
        let c = cs.last();
        let v = with_member(c.variables.last(), m);
        let c2 = CBufferModel { variables: c.variables.drop_last().push(v), ..c };
        Some(RdefModel { constant_buffers: cs.drop_last().push(c2), ..rd })
    }
}

/// The definitions with what a line that is no header line says.
pub open spec fn rdef_item(rd: RdefModel, line: Seq<char>) -> Option<RdefModel> {
    let (head, rest) = match split_once(line, ' ') {
        Some(p) => p,
        None => (line, Seq::empty()),
    };
    let ws = words(rest);
    if head == "binding"@ {
        match read_binding(ws) {
            Some(b) => Some(RdefModel { bindings: rd.bindings.push(b), ..rd }),
            None => None,
        }
    } else if head == "cbuffer"@ {
        match read_cbuffer(ws) {
            Some(c) => Some(RdefModel { constant_buffers: rd.constant_buffers.push(c), ..rd }),
            None => None,
        }
    } else if head == "member"@ {
        match read_member(ws) {
            Some(m) => add_member(rd, m),
            None => None,
        }
    } else if head == "var"@ {
        match read_var(ws) {
            Some(v) => add_var(rd, v),
            None => None,
        }
    } else {
        None
    }
}

/// What a header line says: the value behind the key and `=`, or behind the key
/// and a space.
pub open spec fn header_value(line: Seq<char>, key: Seq<char>) -> Option<Seq<char>> {
    match strip_prefix(line, key.push('=')) {
        Some(v) => Some(v),
        None => strip_prefix(line, key.push(' ')),
    }
}

/// The definitions with what the line says.
#[verifier::opaque]
pub open spec fn rdef_line(rd: RdefModel, line: Seq<char>) -> Option<RdefModel> {
    if let Some(v) = header_value(line, "version"@) {
        match read_hex0x(v) {
            Some(x) => Some(RdefModel { target_version: x, ..rd }),
            None => None,
        }
    } else if let Some(v) = header_value(line, "flags"@) {
        match read_hex0x(v) {
            Some(x) => Some(RdefModel { compile_flags: x, ..rd }),
            None => None,
        }
    } else if let Some(v) = header_value(line, "creator"@) {
        Some(RdefModel { creator: v, ..rd })
    } else if line == "creator"@ {
        Some(RdefModel { creator: Seq::empty(), ..rd })
    } else if let Some(v) = strip_prefix(line, "rd11="@) {
        match read_rd11(v) {
            Some(x) => Some(RdefModel { rd11_extra: Some(x), ..rd }),
            None => None,
        }
    } else if let Some(v) = strip_prefix(line, "rd11 "@) {
        match read_rd11_words(words(v)) {
            Some(x) => Some(RdefModel { rd11_extra: Some(x), ..rd }),
            None => None,
        }
    } else {
        rdef_item(rd, line)
    }
}

/// The definitions with what the lines from number `k` on say.
pub open spec fn rdef_lines(rd: RdefModel, ls: Seq<Seq<char>>, k: int) -> Option<RdefModel>
    decreases ls.len() - k,
{
    if k < 0 || k >= ls.len() {
        Some(rd)
    } else {
        match rdef_line(rd, ls[k]) {
            Some(rd2) => rdef_lines(rd2, ls, k + 1),
            None => None,
        }
    }
}

/// No definitions.
pub open spec fn no_rdef() -> RdefModel {
    RdefModel {
        constant_buffers: Seq::empty(),
        bindings: Seq::empty(),
        creator: Seq::empty(),
        target_version: 0,
        compile_flags: 0,
        rd11_extra: None,
    }
}

/// The value of `key` among the words of a line behind the name at its front.
fn find_key<'a>(ws: &Vec<&'a [char]>, key: &str) -> (r: Option<&'a [char]>)
    ensures
        match r {
            Some(v) => value_of_key(views(ws@), key@) == Some(v@),
            None => value_of_key(views(ws@), key@) is None,
        },
{
    find_key_from(ws, 1, key)
}

/// The value of `key` among the words of a line from number `from` on.
pub(crate) fn find_key_from<'a>(ws: &Vec<&'a [char]>, from: usize, key: &str) -> (r: Option<
    &'a [char],
>)
    ensures
        match r {
            Some(v) => value_for(views(ws@), from as int, ws@.len() as int, key@) == Some(v@),
            None => value_for(views(ws@), from as int, ws@.len() as int, key@) is None,
        },
{
    let ghost m = views(ws@);
    let mut n: usize = ws.len();
    while n > from
        invariant
            m == views(ws@),
            n <= ws.len(),
            value_for(m, from as int, ws@.len() as int, key@) == value_for(
                m,
                from as int,
                n as int,
                key@,
            ),
        decreases n,
    {
        assert(m[n - 1] == ws@[n - 1]@);
        match split_at_first(ws[n - 1], '=') {
            Some((k, v)) => {
                if is_text(k, key) {
                    return Some(v);
                }
            },
            None => {},
        }
        n -= 1;
    }
    None
}

pub(crate) fn word_of(s: &[char], radix: u32) -> (r: Option<u32>)
    requires
        2 <= radix <= 16,
    ensures
        r == word_in(s@, radix as nat),
{
    match parse_unsigned(s, radix, 0xffff_ffff) {
        Some(v) => Some(v as u32),
        None => None,
    }
}

fn dec(ws: &Vec<&[char]>, key: &str) -> (r: Option<u32>)
    ensures
        r == dec_of_key(views(ws@), key@),
{
    match find_key(ws, key) {
        Some(v) => word_of(v, 10),
        None => None,
    }
}

fn hexv(ws: &Vec<&[char]>, key: &str) -> (r: Option<u32>)
    ensures
        r == hex_of_key(views(ws@), key@),
{
    match find_key(ws, key) {
        Some(v) => word_of(v, 16),
        None => None,
    }
}

/// A text that does not read as bytes does not do so with more behind it.
proof fn lemma_hex_bytes_none(s: Seq<char>, k: int)
    requires
        0 <= k <= s.len(),
        k % 2 == 0,
        s.len() % 2 == 0,
        read_hex_bytes(s.take(k)) is None,
    ensures
        read_hex_bytes(s) is None,
    decreases s.len() - k,
{
    if k == s.len() {
        assert(s.take(k) =~= s);
    } else {
        assert(s.take(k + 2).take(k) =~= s.take(k));
        lemma_hex_bytes_none(s, k + 2);
    }
}

/// An odd number of digits does not read as bytes.
proof fn lemma_hex_bytes_odd(s: Seq<char>)
    requires
        s.len() % 2 == 1,
    ensures
        read_hex_bytes(s) is None,
    decreases s.len(),
{
    if s.len() >= 2 {
        lemma_hex_bytes_odd(s.take(s.len() - 2));
    }
}

/// The pairs of hexadecimal digits as bytes.
pub(crate) fn hex_bytes(s: &[char]) -> (r: Option<Vec<u8>>)
    ensures
        match r {
            Some(b) => read_hex_bytes(s@) == Some(b@),
            None => read_hex_bytes(s@) is None,
        },
{
    if s.len() % 2 != 0 {
        proof {
            lemma_hex_bytes_odd(s@);
        }
        return None;
    }
    let mut out: Vec<u8> = Vec::new();
    let mut i: usize = 0;
    assert(s@.take(0) =~= Seq::empty());
    assert(out@ =~= Seq::empty());
    while i < s.len()
        invariant
            s.len() % 2 == 0,
            i % 2 == 0,
            i <= s.len(),
            read_hex_bytes(s@.take(i as int)) == Some(out@),
        decreases s.len() - i,
    {
        assert(s@.take(i as int + 2).take(i as int) =~= s@.take(i as int));
        match (digit_of(s[i], 16), digit_of(s[i + 1], 16)) {
            (Some(hi), Some(lo)) => {
                out.push((hi * 16 + lo) as u8);
            },
            _ => {
                proof {
                    lemma_hex_bytes_none(s@, i as int + 2);
                }
                return None;
            },
        }
        i += 2;
    }
    assert(s@.take(i as int) =~= s@);
    Some(out)
}

fn hex_word_at(parts: &Vec<&[char]>, k: usize) -> (r: Option<u32>)
    ensures
        r == word_at_part(views(parts@), k as int),
{
    if k < parts.len() {
        word_of(parts[k], 16)
    } else {
        None
    }
}

fn trimmed_word_at(parts: &Vec<&[char]>, k: usize) -> (r: Option<u32>)
    ensures
        r == hex_part(views(parts@), k as int),
{
    if k < parts.len() {
        word_of(trimmed(parts[k]), 16)
    } else {
        None
    }
}

fn parse_sm5(ws: &Vec<&[char]>) -> (r: Option<Option<[u32; 4]>>)
    ensures
        r == read_sm5(views(ws@)),
{
    match find_key(ws, "sm5") {
        None => Some(None),
        Some(v) => {
            let p = split_chars(v, ',');
            match (
                hex_word_at(&p, 0),
                hex_word_at(&p, 1),
                hex_word_at(&p, 2),
                hex_word_at(&p, 3),
            ) {
                (Some(a), Some(b), Some(c), Some(d)) => Some(Some([a, b, c, d])),
                _ => None,
            }
        },
    }
}

fn parse_type(ws: &Vec<&[char]>) -> (r: Option<TypeDesc>)
    ensures
        match r {
            Some(t) => read_type(views(ws@)) == Some(t.model()),
            None => read_type(views(ws@)) is None,
        },
{
    match (
        parse_sm5(ws),
        dec(ws, "class"),
        dec(ws, "base"),
        dec(ws, "rows"),
        dec(ws, "cols"),
        dec(ws, "elements"),
    ) {
        (Some(sm5_extra), Some(class), Some(base), Some(rows), Some(cols), Some(elements)) => {
            let name = match find_key(ws, "typename") {
                Some(n) => string_of(n),
                None => String::new(),
            };
            let t = TypeDesc {
                class: class as u16,
                var_type: base as u16,
                rows: rows as u16,
                columns: cols as u16,
                elements: elements as u16,
                members: Vec::new(),
                sm5_extra,
                name,
            };
            proof {
                lemma_type_model(t);
                assert(t.model().members =~= Seq::empty());
            }
            Some(t)
        },
        _ => None,
    }
}

fn parse_binding(ws: &Vec<&[char]>) -> (r: Option<ResourceBinding>)
    ensures
        match r {
            Some(b) => read_binding(views(ws@)) == Some(b.model()),
            None => read_binding(views(ws@)) is None,
        },
{
    if ws.len() == 0 {
        return None;
    }
    assert(views(ws@)[0] == ws@[0]@);
    match (
        dec(ws, "input"),
        dec(ws, "return"),
        dec(ws, "dim"),
        dec(ws, "samples"),
        dec(ws, "slot"),
        dec(ws, "count"),
        hexv(ws, "flags"),
    ) {
        (
            Some(input_type),
            Some(return_type),
            Some(dimension),
            Some(num_samples),
            Some(bind_point),
            Some(bind_count),
            Some(flags),
        ) => Some(
            ResourceBinding {
                name: string_of(ws[0]),
                input_type,
                return_type,
                dimension,
                num_samples,
                bind_point,
                bind_count,
                flags,
            },
        ),
        _ => None,
    }
}

fn parse_cbuffer(ws: &Vec<&[char]>) -> (r: Option<CBufferDef>)
    ensures
        match r {
            Some(c) => read_cbuffer(views(ws@)) == Some(c.model()),
            None => read_cbuffer(views(ws@)) is None,
        },
{
    if ws.len() == 0 {
        return None;
    }
    assert(views(ws@)[0] == ws@[0]@);
    match (dec(ws, "size"), hexv(ws, "flags"), dec(ws, "kind")) {
        (Some(size), Some(flags), Some(cb_type)) => {
            let c = CBufferDef {
                name: string_of(ws[0]),
                variables: Vec::new(),
                size,
                flags,
                cb_type,
            };
            assert(c.model().variables =~= Seq::empty());
            Some(c)
        },
        _ => None,
    }
}

fn parse_member(ws: &Vec<&[char]>) -> (r: Option<MemberDesc>)
    ensures
        match r {
            Some(m) => read_member(views(ws@)) == Some(m.model()),
            None => read_member(views(ws@)) is None,
        },
{
    if ws.len() == 0 {
        return None;
    }
    assert(views(ws@)[0] == ws@[0]@);
    match (parse_type(ws), dec(ws, "offset")) {
        (Some(member_type), Some(offset)) => Some(
            MemberDesc { name: string_of(ws[0]), member_type, offset },
        ),
        _ => None,
    }
}

fn parse_slots(ws: &Vec<&[char]>, key: &str) -> (r: Option<Option<(u32, u32)>>)
    ensures
        r == read_slots(views(ws@), key@),
{
    match find_key(ws, key) {
        None => Some(None),
        Some(v) => match split_at_first(v, ',') {
            None => None,
            Some((a, b)) => match (parse_signed(a, 0x7fff_ffff), word_of(b, 10)) {
                (Some(i), Some(size)) => {
                    let start: u32 = if i < 0 { (i + 0x1_0000_0000) as u32 } else { i as u32 };
                    Some(Some((start, size)))
                },
                _ => None,
            },
        },
    }
}

fn parse_var(ws: &Vec<&[char]>) -> (r: Option<CBufferVariable>)
    ensures
        match r {
            Some(v) => read_var(views(ws@)) == Some(v.model()),
            None => read_var(views(ws@)) is None,
        },
{
    if ws.len() == 0 {
        return None;
    }
    assert(views(ws@)[0] == ws@[0]@);
    let default = match find_key(ws, "default") {
        None => {
            let e: Vec<u8> = Vec::new();
            assert(e@ =~= Seq::empty());
            Some(e)
        },
        Some(h) => hex_bytes(h),
    };
    match (
        parse_slots(ws, "tex"),
        parse_slots(ws, "samp"),
        default,
        parse_type(ws),
        dec(ws, "offset"),
        dec(ws, "size"),
        hexv(ws, "flags"),
    ) {
        (
            Some(tex),
            Some(samp),
            Some(default_value),
            Some(var_type),
            Some(offset),
            Some(size),
            Some(flags),
        ) => {
            let (texture_start, texture_size) = match tex {
                Some((a, b)) => (Some(a), Some(b)),
                None => (None, None),
            };
            let (sampler_start, sampler_size) = match samp {
                Some((a, b)) => (Some(a), Some(b)),
                None => (None, None),
            };
            Some(
                CBufferVariable {
                    name: string_of(ws[0]),
                    offset,
                    size,
                    flags,
                    var_type,
                    default_value,
                    texture_start,
                    texture_size,
                    sampler_start,
                    sampler_size,
                },
            )
        },
        _ => None,
    }
}

fn parse_hex0x(s: &[char]) -> (r: Option<u32>)
    ensures
        r == read_hex0x(s@),
{
    let t = trimmed(s);
    match strip_text(t, "0x") {
        Some(b) => word_of(b, 16),
        None => word_of(t, 16),
    }
}

fn parse_rd11(v: &[char]) -> (r: Option<[u32; 8]>)
    ensures
        r == read_rd11(v@),
{
    let p = split_chars(v, ',');
    match (
        trimmed_word_at(&p, 0),
        trimmed_word_at(&p, 1),
        trimmed_word_at(&p, 2),
        trimmed_word_at(&p, 3),
        trimmed_word_at(&p, 4),
        trimmed_word_at(&p, 5),
        trimmed_word_at(&p, 6),
        trimmed_word_at(&p, 7),
    ) {
        (Some(a), Some(b), Some(c), Some(d), Some(e), Some(f), Some(g), Some(h)) => Some(
            [a, b, c, d, e, f, g, h],
        ),
        _ => None,
    }
}

fn hex_word_of(ws: &Vec<&[char]>, k: usize) -> (r: Option<u32>)
    ensures
        r == hex_word(views(ws@), k as int),
{
    if k < ws.len() {
        word_of(ws[k], 16)
    } else {
        None
    }
}

pub(crate) fn parse_rd11_words(ws: &Vec<&[char]>) -> (r: Option<[u32; 8]>)
    ensures
        r == read_rd11_words(views(ws@)),
{
    match (
        hex_word_of(ws, 0),
        hex_word_of(ws, 1),
        hex_word_of(ws, 2),
        hex_word_of(ws, 3),
        hex_word_of(ws, 4),
        hex_word_of(ws, 5),
        hex_word_of(ws, 6),
        hex_word_of(ws, 7),
    ) {
        (Some(a), Some(b), Some(c), Some(d), Some(e), Some(f), Some(g), Some(h)) => Some(
            [a, b, c, d, e, f, g, h],
        ),
        _ => None,
    }
}

/// Add a variable to the last buffer.
pub(crate) fn push_var(rd: &mut ResourceDef, v: CBufferVariable) -> (r: bool)
    ensures
        match add_var(old(rd).model(), v.model()) {
            Some(m) => r && final(rd).model() == m,
            None => !r,
        },
{
    let ghost cs = rd.model().constant_buffers;
    let ghost all = rd.constant_buffers@;
    match rd.constant_buffers.pop() {
        None => false,
        Some(cb) => {
            let mut cb = cb;
            assert(cs.last() == cb.model());
            let ghost vs = cb.variables@;
            cb.variables.push(v);
            proof {
                assert(variable_models(cb.variables@) =~= variable_models(vs).push(v.model()));
            }
            rd.constant_buffers.push(cb);
            proof {
                assert(cbuffer_models(rd.constant_buffers@) =~= cs.drop_last().push(
                    with_var(cs.last(), v.model()),
                ));
            }
            true
        },
    }
}

/// Add a member to the type of the last variable of the last buffer.
fn push_member(rd: &mut ResourceDef, m: MemberDesc) -> (r: bool)
    ensures
        match add_member(old(rd).model(), m.model()) {
            Some(x) => r && final(rd).model() == x,
            None => !r,
        },
{
    let ghost cs = rd.model().constant_buffers;
    match rd.constant_buffers.pop() {
        None => false,
        Some(cb) => {
            let mut cb = cb;
            let ghost c = cb.model();
            assert(cs.last() == c);
            match cb.variables.pop() {
                None => false,
                Some(var) => {
                    let mut var = var;
                    let ghost v = var.model();
                    assert(c.variables.last() == v);
                    proof {
                        lemma_type_model(var.var_type);
                    }
                    let ghost ms = var.var_type.members@;
                    var.var_type.members.push(m);
                    proof {
                        lemma_type_model(var.var_type);
                        assert(member_models(var.var_type.members@) =~= member_models(ms).push(
                            m.model(),
                        ));
                        assert(var.model() == with_member(v, m.model()));
                    }
                    cb.variables.push(var);
                    proof {
                        assert(cb.model().variables =~= c.variables.drop_last().push(
                            with_member(v, m.model()),
                        ));
                    }
                    rd.constant_buffers.push(cb);
                    proof {
                        assert(rd.model().constant_buffers =~= cs.drop_last().push(cb.model()));
                    }
                    true
                },
            }
        },
    }
}

/// Read a line that is no header line.
fn read_item(rd: &mut ResourceDef, line: &[char]) -> (r: bool)
    ensures
        match rdef_item(old(rd).model(), line@) {
            Some(m) => r && final(rd).model() == m,
            None => !r,
        },
{
    let (head, rest): (&[char], &[char]) = match split_at_first(line, ' ') {
        Some((h, t)) => (h, t),
        None => {
            let e = crate::text::skip(line, line.len());
            assert(e@ =~= Seq::empty());
            (line, e)
        },
    };
    let ws = words_of(rest);
    if is_text(head, "binding") {
        match parse_binding(&ws) {
            Some(b) => {
                let ghost before = rd.bindings@;
                rd.bindings.push(b);
                assert(binding_models(rd.bindings@) =~= binding_models(before).push(b.model()));
                true
            },
            None => false,
        }
    } else if is_text(head, "cbuffer") {
        match parse_cbuffer(&ws) {
            Some(c) => {
                let ghost before = rd.constant_buffers@;
                rd.constant_buffers.push(c);
                assert(cbuffer_models(rd.constant_buffers@) =~= cbuffer_models(before).push(
                    c.model(),
                ));
                true
            },
            None => false,
        }
    } else if is_text(head, "member") {
        match parse_member(&ws) {
            Some(m) => push_member(rd, m),
            None => false,
        }
    } else if is_text(head, "var") {
        match parse_var(&ws) {
            Some(v) => push_var(rd, v),
            None => false,
        }
    } else {
        false
    }
}

/// What a header line says behind its key.
fn header_rest<'a>(line: &'a [char], key: &str) -> (r: Option<&'a [char]>)
    ensures
        match r {
            Some(v) => header_value(line@, key@) == Some(v@),
            None => header_value(line@, key@) is None,
        },
{
    let mut k = chars_of(key);
    k.push('=');
    match crate::text::strip_prefix_chars(line, k.as_slice()) {
        Some(v) => Some(v),
        None => {
            let mut k = chars_of(key);
            k.push(' ');
            crate::text::strip_prefix_chars(line, k.as_slice())
        },
    }
}

/// Read one line.
fn read_rdef_line(rd: &mut ResourceDef, line: &[char]) -> (r: bool)
    ensures
        match rdef_line(old(rd).model(), line@) {
            Some(m) => r && final(rd).model() == m,
            None => !r,
        },
{
    reveal(rdef_line);
    if let Some(v) = header_rest(line, "version") {
        match parse_hex0x(v) {
            Some(x) => {
                rd.target_version = x;
                true
            },
            None => false,
        }
    } else if let Some(v) = header_rest(line, "flags") {
        match parse_hex0x(v) {
            Some(x) => {
                rd.compile_flags = x;
                true
            },
            None => false,
        }
    } else if let Some(v) = header_rest(line, "creator") {
        rd.creator = string_of(v);
        true
    } else if is_text(line, "creator") {
        rd.creator = String::new();
        assert(rd.creator@ =~= Seq::empty());
        true
    } else if let Some(v) = strip_text(line, "rd11=") {
        match parse_rd11(v) {
            Some(x) => {
                rd.rd11_extra = Some(x);
                true
            },
            None => false,
        }
    } else if let Some(v) = strip_text(line, "rd11 ") {
        match parse_rd11_words(&words_of(v)) {
            Some(x) => {
                rd.rd11_extra = Some(x);
                true
            },
            None => false,
        }
    } else {
        read_item(rd, line)
    }
}

/// Read resource definitions from cleaned lines.
pub(crate) fn rdef_from_lines(lines: &Vec<&[char]>) -> (r: Option<ResourceDef>)
    ensures
        match r {
            Some(rd) => rdef_lines(no_rdef(), views(lines@), 0) == Some(rd.model()),
            None => rdef_lines(no_rdef(), views(lines@), 0) is None,
        },
{
    let ghost ls = views(lines@);
    let mut rd = ResourceDef {
        constant_buffers: Vec::new(),
        bindings: Vec::new(),
        creator: String::new(),
        target_version: 0,
        compile_flags: 0,
        rd11_extra: None,
    };
    assert(rd.model() =~= no_rdef());
    let mut i: usize = 0;
    while i < lines.len()
        invariant
            ls == views(lines@),
            i <= lines.len(),
            rdef_lines(rd.model(), ls, i as int) == rdef_lines(no_rdef(), ls, 0),
        decreases lines.len() - i,
    {
        assert(ls[i as int] == lines@[i as int]@);
        if !read_rdef_line(&mut rd, lines[i]) {
            return None;
        }
        i += 1;
    }
    Some(rd)
}

/// Read resource definitions from lines of `key=value`. A line that begins with
/// no known word, a value that is missing or is no number, and a variable or
/// member without what it belongs to are errors.
pub fn rdef_from_text(text: &str) -> (r: Option<ResourceDef>)
    ensures
        match r {
            Some(rd) => rdef_lines(no_rdef(), text_lines(text@, false), 0) == Some(rd.model()),
            None => rdef_lines(no_rdef(), text_lines(text@, false), 0) is None,
        },
{
    let chars = chars_of(text);
    let lines = lines_of(chars.as_slice(), false);
    rdef_from_lines(&lines)
}

} // verus!
