//! Writing resource definitions as the bytes of their chunk.
//!
//! Behind the header come the binding records and their names, the constant
//! buffer records and their names, then for each buffer its variable records
//! with the names, types and default values they refer to, and last the
//! creator's name. A name that has been written is referred to again, and so is
//! a type that is no array.

use vstd::prelude::*;
use vstd::utf8::encode_utf8;

use crate::bytes::{lemma_word_bytes, push_u32, word_bytes};
use crate::chunks::rdef::{
    BindingModel, CBufferDef, CBufferModel, CBufferVariable, MemberDesc, MemberModel, RdefModel,
    ResourceBinding, ResourceDef, SLOT_UNUSED, TypeDesc, TypeModel, VariableModel, binding_models,
    cbuffer_models, is_sm5, is_sm5_version, lemma_type_model, member_models, types_eq,
    variable_models,
};
use crate::grammar::tables::{NameTable, table_value};
use crate::text::{lemma_cat3, lemma_cat4};

verus! {

// ---------------------------------------------------------------------------
// Layout
// ---------------------------------------------------------------------------

/// The bytes that fill up to the next multiple of four.
pub open spec fn padding(pos: nat) -> Seq<u8> {
    Seq::new(((4 - pos % 4) % 4) as nat, |i: int| 0xABu8)
}

/// What became of a name: the bytes written for it, the names written so far
/// with their positions, and its position.
pub struct Interned {
    /// The bytes written.
    pub bytes: Seq<u8>,
    /// The names and their positions.
    pub pool: NameTable,
    /// The position of the name.
    pub off: u32,
}

/// Write the name `s` at position `pos`, unless it has been written before.
pub open spec fn interned(pos: nat, pool: NameTable, s: Seq<char>) -> Interned {
    match table_value(pool, s) {
        Some(off) => Interned { bytes: Seq::empty(), pool, off },
        None => Interned {
            bytes: encode_utf8(s).push(0),
            pool: pool.push((s, pos as u32)),
            off: pos as u32,
        },
    }
}

/// What became of a list of names.
pub struct Names {
    /// The bytes written.
    pub bytes: Seq<u8>,
    /// The names and their positions.
    pub pool: NameTable,
    /// The position of each name.
    pub offs: Seq<u32>,
}

/// Write the first `n` names from position `pos` on.
pub open spec fn interned_names(
    pos: nat,
    pool: NameTable,
    names: Seq<Seq<char>>,
    n: int,
) -> Names
    decreases n,
{
    if n <= 0 {
        Names { bytes: Seq::empty(), pool, offs: Seq::empty() }
    } else {
        let p = interned_names(pos, pool, names, n - 1);
        let i = interned(pos + p.bytes.len(), p.pool, names[n - 1]);
        Names { bytes: p.bytes + i.bytes, pool: i.pool, offs: p.offs.push(i.off) }
    }
}

/// The names and types written so far.
pub struct Written {
    /// The names and their positions.
    pub pool: NameTable,
    /// The types and their positions.
    pub types: Seq<(TypeModel, u32)>,
}

/// The position of the first type written that is `t`.
pub open spec fn type_offset(types: Seq<(TypeModel, u32)>, t: TypeModel) -> Option<u32>
    decreases types.len(),
{
    if types.len() == 0 {
        None
    } else if types[0].0 == t {
        Some(types[0].1)
    } else {
        type_offset(types.skip(1), t)
    }
}

/// What became of a type.
pub struct PlacedType {
    /// The bytes written.
    pub bytes: Seq<u8>,
    /// The names and types written so far.
    pub st: Written,
    /// The position of the type.
    pub off: u32,
}

/// What became of the members of a struct.
pub struct PlacedMembers {
    /// The bytes written.
    pub bytes: Seq<u8>,
    /// The names and types written so far.
    pub st: Written,
    /// The position of each member's type.
    pub offs: Seq<u32>,
}

/// Write the names and types of the first `n` members from position `pos` on.
pub open spec fn placed_members(
    pos: nat,
    st: Written,
    ms: Seq<MemberModel>,
    sm5: bool,
    n: int,
) -> PlacedMembers
    decreases ms, n,
{
    if n <= 0 || n > ms.len() {
        PlacedMembers { bytes: Seq::empty(), st, offs: Seq::empty() }
    } else {
        let p = placed_members(pos, st, ms, sm5, n - 1);
        let i = interned(pos + p.bytes.len(), p.st.pool, ms[n - 1].name);
        let t = placed_type(
            pos + p.bytes.len() + i.bytes.len(),
            Written { pool: i.pool, types: p.st.types },
            ms[n - 1].member_type,
            sm5,
        );
        PlacedMembers { bytes: p.bytes + i.bytes + t.bytes, st: t.st, offs: p.offs.push(t.off) }
    }
}

/// The position of a name that has been written.
pub open spec fn offset_of(pool: NameTable, s: Seq<char>) -> u32 {
    match table_value(pool, s) {
        Some(v) => v,
        None => 0,
    }
}

/// The records of the first `n` members.
pub open spec fn member_records(
    ms: Seq<MemberModel>,
    pool: NameTable,
    offs: Seq<u32>,
    n: int,
) -> Seq<u8>
    decreases n,
{
    if n <= 0 {
        Seq::empty()
    } else {
        member_records(ms, pool, offs, n - 1) + word_bytes(offset_of(pool, ms[n - 1].name))
            + word_bytes(offs[n - 1]) + word_bytes(ms[n - 1].offset)
    }
}

/// Everything that a type's record refers to.
pub struct TypeParts {
    /// The bytes written, filled up to where the record begins.
    pub bytes: Seq<u8>,
    /// The names and types written so far.
    pub st: Written,
    /// The position of the type's name.
    pub name_off: u32,
    /// The position of the member records.
    pub member_off: u32,
}

/// Write the name and the members of a type from position `pos` on.
pub open spec fn type_parts(pos: nat, st: Written, td: TypeModel, sm5: bool) -> TypeParts
    decreases td, 0int,
{
    let i = if td.name.len() == 0 {
        Interned { bytes: Seq::empty(), pool: st.pool, off: 0 }
    } else {
        interned(pos, st.pool, td.name)
    };
    if td.members.len() == 0 {
        TypeParts {
            bytes: i.bytes + padding(pos + i.bytes.len()),
            st: Written { pool: i.pool, types: st.types },
            name_off: i.off,
            member_off: 0,
        }
    } else {
        let m = placed_members(
            pos + i.bytes.len(),
            Written { pool: i.pool, types: st.types },
            td.members,
            sm5,
            td.members.len() as int,
        );
        let before = i.bytes + m.bytes;
        let gap = padding(pos + before.len());
        let records = member_records(td.members, m.st.pool, m.offs, td.members.len() as int);
        let all = before + gap + records;
        TypeParts {
            bytes: all + padding(pos + all.len()),
            st: m.st,
            name_off: i.off,
            member_off: (pos + before.len() + gap.len()) as u32,
        }
    }
}

/// The record of a type.
pub open spec fn type_record(td: TypeModel, name_off: u32, member_off: u32, sm5: bool) -> Seq<u8> {
    word_bytes((td.class as u32) | ((td.var_type as u32) << 16)) + word_bytes(
        (td.rows as u32) | ((td.columns as u32) << 16),
    ) + word_bytes((td.elements as u32) | ((td.members.len() as u32) << 16)) + word_bytes(
        member_off,
    ) + (if sm5 {
        (match td.sm5_extra {
            Some(e) => word_bytes(e[0]) + word_bytes(e[1]) + word_bytes(e[2]) + word_bytes(e[3]),
            None => word_bytes(0) + word_bytes(0) + word_bytes(0) + word_bytes(0),
        }) + word_bytes(name_off)
    } else {
        Seq::empty()
    })
}

/// Write a type from position `pos` on, unless it is no array and has been
/// written before.
#[verifier::opaque]
pub open spec fn placed_type(pos: nat, st: Written, td: TypeModel, sm5: bool) -> PlacedType
    decreases td, 1int,
{
    if td.elements == 0 && type_offset(st.types, td) is Some {
        PlacedType { bytes: Seq::empty(), st, off: type_offset(st.types, td)->0 }
    } else {
        let p = type_parts(pos, st, td, sm5);
        let off = (pos + p.bytes.len()) as u32;
        PlacedType {
            bytes: p.bytes + type_record(td, p.name_off, p.member_off, sm5),
            st: Written { pool: p.st.pool, types: p.st.types.push((td, off)) },
            off,
        }
    }
}

/// What became of the variables of a buffer.
pub struct PlacedVariables {
    /// The bytes written.
    pub bytes: Seq<u8>,
    /// The names and types written so far.
    pub st: Written,
    /// The position of each name, type and default value.
    pub offs: Seq<(u32, u32, u32)>,
}

/// Write what the first `n` variables refer to, from position `pos` on.
pub open spec fn placed_variables(
    pos: nat,
    st: Written,
    vs: Seq<VariableModel>,
    sm5: bool,
    n: int,
) -> PlacedVariables
    decreases n,
{
    if n <= 0 {
        PlacedVariables { bytes: Seq::empty(), st, offs: Seq::empty() }
    } else {
        let p = placed_variables(pos, st, vs, sm5, n - 1);
        let v = vs[n - 1];
        let i = interned(pos + p.bytes.len(), p.st.pool, v.name);
        let t = placed_type(
            pos + p.bytes.len() + i.bytes.len(),
            Written { pool: i.pool, types: p.st.types },
            v.var_type,
            sm5,
        );
        let bytes = p.bytes + i.bytes + t.bytes;
        let d = if v.default_value.len() == 0 {
            0u32
        } else {
            (pos + bytes.len()) as u32
        };
        PlacedVariables {
            bytes: bytes + v.default_value,
            st: t.st,
            offs: p.offs.push((i.off, t.off, d)),
        }
    }
}

/// A number that may be missing.
pub open spec fn word_or(v: Option<u32>, missing: u32) -> u32 {
    match v {
        Some(x) => x,
        None => missing,
    }
}

/// The record of a variable.
pub open spec fn variable_record(v: VariableModel, o: (u32, u32, u32), sm5: bool) -> Seq<u8> {
    word_bytes(o.0) + word_bytes(v.offset) + word_bytes(v.size) + word_bytes(v.flags) + word_bytes(
        o.1,
    ) + word_bytes(o.2) + (if sm5 {
        word_bytes(word_or(v.texture_start, SLOT_UNUSED)) + word_bytes(word_or(v.texture_size, 0))
            + word_bytes(word_or(v.sampler_start, SLOT_UNUSED)) + word_bytes(
            word_or(v.sampler_size, 0),
        )
    } else {
        Seq::empty()
    })
}

/// The records of the first `n` variables.
pub open spec fn variable_records(
    vs: Seq<VariableModel>,
    offs: Seq<(u32, u32, u32)>,
    sm5: bool,
    n: int,
) -> Seq<u8>
    decreases n,
{
    if n <= 0 {
        Seq::empty()
    } else {
        variable_records(vs, offs, sm5, n - 1) + variable_record(vs[n - 1], offs[n - 1], sm5)
    }
}

/// The size of a variable's record.
pub open spec fn record_size(sm5: bool) -> nat {
    if sm5 {
        40
    } else {
        24
    }
}

/// What became of the constant buffers.
pub struct PlacedBuffers {
    /// The bytes written.
    pub bytes: Seq<u8>,
    /// The names and types written so far.
    pub st: Written,
    /// The position of each buffer's variable records.
    pub offs: Seq<u32>,
}

/// Write the variables of the first `n` buffers from position `pos` on.
pub open spec fn placed_buffers(
    pos: nat,
    cbs: Seq<CBufferModel>,
    sm5: bool,
    n: int,
) -> PlacedBuffers
    decreases n,
{
    if n <= 0 {
        PlacedBuffers {
            bytes: Seq::empty(),
            st: Written { pool: Seq::empty(), types: Seq::empty() },
            offs: Seq::empty(),
        }
    } else {
        let p = placed_buffers(pos, cbs, sm5, n - 1);
        let vs = cbs[n - 1].variables;
        let gap = padding(pos + p.bytes.len());
        let at = pos + p.bytes.len() + gap.len();
        let body = placed_variables(
            at + vs.len() * record_size(sm5),
            p.st,
            vs,
            sm5,
            vs.len() as int,
        );
        PlacedBuffers {
            bytes: p.bytes + gap + variable_records(vs, body.offs, sm5, vs.len() as int)
                + body.bytes,
            st: body.st,
            offs: p.offs.push(at as u32),
        }
    }
}

/// The records of the first `n` buffers.
pub open spec fn buffer_records(
    cbs: Seq<CBufferModel>,
    name_offs: Seq<u32>,
    var_offs: Seq<u32>,
    n: int,
) -> Seq<u8>
    decreases n,
{
    if n <= 0 {
        Seq::empty()
    } else {
        let c = cbs[n - 1];
        buffer_records(cbs, name_offs, var_offs, n - 1) + (word_bytes(name_offs[n - 1])
            + word_bytes(c.variables.len() as u32) + word_bytes(var_offs[n - 1]) + word_bytes(c.size)
            + word_bytes(c.flags) + word_bytes(c.cb_type))
    }
}

/// The records of the first `n` bindings.
pub open spec fn binding_records(bs: Seq<BindingModel>, offs: Seq<u32>, n: int) -> Seq<u8>
    decreases n,
{
    if n <= 0 {
        Seq::empty()
    } else {
        let b = bs[n - 1];
        binding_records(bs, offs, n - 1) + (word_bytes(offs[n - 1]) + word_bytes(b.input_type)
            + word_bytes(b.return_type) + word_bytes(b.dimension) + word_bytes(b.num_samples)
            + word_bytes(b.bind_point) + word_bytes(b.bind_count) + word_bytes(b.flags))
    }
}

/// The further header of shader model five, where there is one.
pub open spec fn rd11_bytes(r: Option<[u32; 8]>) -> Seq<u8> {
    match r {
        Some(e) => word_bytes(e[0]) + word_bytes(e[1]) + word_bytes(e[2]) + word_bytes(e[3])
            + word_bytes(e[4]) + word_bytes(e[5]) + word_bytes(e[6]) + word_bytes(e[7]),
        None => Seq::empty(),
    }
}

/// The names of the bindings.
pub open spec fn binding_names(bs: Seq<BindingModel>) -> Seq<Seq<char>> {
    Seq::new(bs.len(), |i: int| bs[i].name)
}

/// The names of the buffers.
pub open spec fn buffer_names(cbs: Seq<CBufferModel>) -> Seq<Seq<char>> {
    Seq::new(cbs.len(), |i: int| cbs[i].name)
}

/// The names of the bindings, behind their records.
pub open spec fn binding_section(rd: RdefModel) -> Names {
    interned_names(
        28 + rd11_bytes(rd.rd11_extra).len() + 32 * rd.bindings.len(),
        Seq::empty(),
        binding_names(rd.bindings),
        rd.bindings.len() as int,
    )
}

/// All that stands between the header and the buffer records.
pub open spec fn front_bytes(rd: RdefModel) -> Seq<u8> {
    let n = binding_section(rd);
    let b = rd11_bytes(rd.rd11_extra) + binding_records(
        rd.bindings,
        n.offs,
        rd.bindings.len() as int,
    ) + n.bytes;
    if rd.constant_buffers.len() == 0 {
        b
    } else {
        b + padding(28 + b.len())
    }
}

/// The names of the buffers, behind their records.
pub open spec fn buffer_section(rd: RdefModel) -> Names {
    interned_names(
        28 + front_bytes(rd).len() + 24 * rd.constant_buffers.len(),
        binding_section(rd).pool,
        buffer_names(rd.constant_buffers),
        rd.constant_buffers.len() as int,
    )
}

/// The variables of the buffers, behind the buffers' names.
pub open spec fn variable_section(rd: RdefModel) -> PlacedBuffers {
    placed_buffers(
        28 + front_bytes(rd).len() + 24 * rd.constant_buffers.len() + buffer_section(
            rd,
        ).bytes.len(),
        rd.constant_buffers,
        is_sm5_version(rd.target_version),
        rd.constant_buffers.len() as int,
    )
}

/// All that stands between the header and the creator's name.
pub open spec fn middle_bytes(rd: RdefModel) -> Seq<u8> {
    front_bytes(rd) + buffer_records(
        rd.constant_buffers,
        buffer_section(rd).offs,
        variable_section(rd).offs,
        rd.constant_buffers.len() as int,
    ) + buffer_section(rd).bytes + variable_section(rd).bytes
}

/// The creator's name.
pub open spec fn creator_section(rd: RdefModel) -> Interned {
    interned(28 + middle_bytes(rd).len(), variable_section(rd).st.pool, rd.creator)
}

/// The header.
pub open spec fn rdef_header(rd: RdefModel) -> Seq<u8> {
    word_bytes(rd.constant_buffers.len() as u32) + word_bytes(
        if rd.constant_buffers.len() == 0 {
            0
        } else {
            (28 + front_bytes(rd).len()) as u32
        },
    ) + word_bytes(rd.bindings.len() as u32) + word_bytes(
        (28 + rd11_bytes(rd.rd11_extra).len()) as u32,
    ) + word_bytes(rd.target_version) + word_bytes(rd.compile_flags) + word_bytes(
        creator_section(rd).off,
    )
}

/// The bytes of the chunk.
pub open spec fn rdef_payload(rd: RdefModel) -> Seq<u8> {
    let b = rdef_header(rd) + middle_bytes(rd) + creator_section(rd).bytes;
    b + padding(b.len())
}

// ---------------------------------------------------------------------------
// Writing
// ---------------------------------------------------------------------------

/// Positions stay far below what a wide integer holds.
pub const FAR: u128 = 0x1_0000_0000_0000_0000_0000_0000;

/// Bytes being written, the first of which stands at position `base`.
pub(crate) struct Sink {
    pub base: u128,
    pub out: Vec<u8>,
}

impl Sink {
    pub(crate) open spec fn pos(self) -> nat {
        (self.base + self.out@.len()) as nat
    }

    pub(crate) fn new(base: u128) -> (r: Sink)
        ensures
            r.base == base,
            r.out@ == Seq::<u8>::empty(),
    {
        Sink { base, out: Vec::new() }
    }

    /// The position of the next byte, as a word.
    fn here(&self) -> (r: u32)
        requires
            self.base < FAR,
        ensures
            r == self.pos() as u32,
    {
        (self.base + self.out.len() as u128) as u32
    }

    fn word(&mut self, v: u32)
        ensures
            final(self).base == old(self).base,
            final(self).out@ == old(self).out@ + word_bytes(v),
    {
        push_u32(&mut self.out, v);
    }

    fn bytes(&mut self, b: &[u8])
        ensures
            final(self).base == old(self).base,
            final(self).out@ == old(self).out@ + b@,
    {
        push_slice(&mut self.out, b);
    }

    /// Fill up to the next multiple of four.
    pub(crate) fn pad4(&mut self)
        requires
            old(self).base < FAR,
        ensures
            final(self).base == old(self).base,
            final(self).out@ == old(self).out@ + padding(old(self).pos()),
    {
        let pos: u128 = self.base + self.out.len() as u128;
        let n: u128 = (4 - pos % 4) % 4;
        let mut i: u128 = 0;
        while i < n
            invariant
                i <= n,
                n == padding(old(self).pos()).len(),
                self.base == old(self).base,
                self.out@ == old(self).out@ + padding(old(self).pos()).take(i as int),
            decreases n - i,
        {
            self.out.push(0xAB);
            i += 1;
            assert(self.out@ =~= old(self).out@ + padding(old(self).pos()).take(i as int));
        }
        assert(padding(old(self).pos()).take(i as int) =~= padding(old(self).pos()));
    }
}

pub(crate) fn push_slice(out: &mut Vec<u8>, b: &[u8])
    ensures
        final(out)@ == old(out)@ + b@,
{
    let mut i: usize = 0;
    while i < b.len()
        invariant
            i <= b.len(),
            out@ == old(out)@ + b@.take(i as int),
        decreases b.len() - i,
    {
        out.push(b[i]);
        i += 1;
        assert(out@ =~= old(out)@ + b@.take(i as int));
    }
    assert(b@.take(i as int) =~= b@);
}

/// The table of names that have been written.
pub(crate) open spec fn pool_table(pool: Seq<(&str, u32)>) -> NameTable {
    Seq::new(pool.len(), |i: int| (pool[i].0@, pool[i].1))
}

fn find_in_pool(pool: &Vec<(&str, u32)>, s: &str) -> (r: Option<u32>)
    ensures
        r == table_value(pool_table(pool@), s@),
{
    let chars = crate::text::chars_of(s);
    let ghost t = pool_table(pool@);
    let mut i: usize = 0;
    assert(t.skip(0) =~= t);
    while i < pool.len()
        invariant
            chars@ == s@,
            t == pool_table(pool@),
            i <= pool.len(),
            table_value(t, s@) == table_value(t.skip(i as int), s@),
        decreases pool.len() - i,
    {
        assert(t.skip(i as int)[0] == t[i as int]);
        assert(t.skip(i as int).skip(1) =~= t.skip(i as int + 1));
        if crate::text::is_text(chars.as_slice(), pool[i].0) {
            return Some(pool[i].1);
        }
        i += 1;
    }
    None
}

/// Write a name with a zero behind it, unless it has been written before, and
/// give its position.
fn intern<'a>(w: &mut Sink, pool: &mut Vec<(&'a str, u32)>, s: &'a str) -> (r: u32)
    requires
        old(w).base < FAR,
    ensures
        ({
            let i = interned(old(w).pos(), pool_table(old(pool)@), s@);
            &&& r == i.off
            &&& final(w).base == old(w).base
            &&& final(w).out@ == old(w).out@ + i.bytes
            &&& pool_table(final(pool)@) == i.pool
        }),
{
    match find_in_pool(pool, s) {
        Some(off) => {
            assert(w.out@ =~= w.out@ + Seq::<u8>::empty());
            off
        },
        None => {
            let off: u32 = w.here();
            w.bytes(s.as_bytes());
            w.out.push(0);
            let ghost before = pool@;
            pool.push((s, off));
            proof {
                assert(pool_table(pool@) =~= pool_table(before).push((s@, off)));
                assert(w.out@ =~= old(w).out@ + encode_utf8(s@).push(0));
            }
            off
        },
    }
}

/// Write the names from the position of `w` on.
pub(crate) fn intern_names<'a>(w: &mut Sink, pool: &mut Vec<(&'a str, u32)>, names: &Vec<&'a str>) -> (r: Vec<
    u32,
>)
    requires
        old(w).base < FAR,
        old(w).out@.len() == 0,
    ensures
        ({
            let n = interned_names(
                old(w).base as nat,
                pool_table(old(pool)@),
                Seq::new(names@.len(), |i: int| names@[i]@),
                names@.len() as int,
            );
            &&& r@ == n.offs
            &&& final(w).base == old(w).base
            &&& final(w).out@ == n.bytes
            &&& pool_table(final(pool)@) == n.pool
        }),
{
    let ghost start = pool_table(pool@);
    let ghost ns = Seq::new(names@.len(), |i: int| names@[i]@);
    let mut offs: Vec<u32> = Vec::new();
    let mut i: usize = 0;
    assert(w.out@ =~= Seq::empty());
    assert(offs@ =~= Seq::empty());
    while i < names.len()
        invariant
            i <= names.len(),
            w.base == old(w).base,
            w.base < FAR,
            ns == Seq::new(names@.len(), |i: int| names@[i]@),
            start == pool_table(old(pool)@),
            ({
                let n = interned_names(w.base as nat, start, ns, i as int);
                offs@ == n.offs && w.out@ == n.bytes && pool_table(pool@) == n.pool
            }),
        decreases names.len() - i,
    {
        let off: u32 = intern(w, pool, names[i]);
        offs.push(off);
        i += 1;
    }
    offs
}

/// The types that have been written.
spec fn types_table(types: Seq<(&TypeDesc, u32)>) -> Seq<(TypeModel, u32)> {
    Seq::new(types.len(), |i: int| (types[i].0.model(), types[i].1))
}

fn find_type(types: &Vec<(&TypeDesc, u32)>, td: &TypeDesc) -> (r: Option<u32>)
    ensures
        r == type_offset(types_table(types@), td.model()),
{
    let ghost t = types_table(types@);
    let mut i: usize = 0;
    assert(t.skip(0) =~= t);
    while i < types.len()
        invariant
            t == types_table(types@),
            i <= types.len(),
            type_offset(t, td.model()) == type_offset(t.skip(i as int), td.model()),
        decreases types.len() - i,
    {
        assert(t.skip(i as int)[0] == t[i as int]);
        assert(t.skip(i as int).skip(1) =~= t.skip(i as int + 1));
        if types_eq(types[i].0, td) {
            return Some(types[i].1);
        }
        i += 1;
    }
    None
}

/// The names and types that have been written.
struct Tables<'a> {
    pool: Vec<(&'a str, u32)>,
    types: Vec<(&'a TypeDesc, u32)>,
}

impl<'a> Tables<'a> {
    spec fn model(self) -> Written {
        Written { pool: pool_table(self.pool@), types: types_table(self.types@) }
    }
}

fn write_type_record(w: &mut Sink, td: &TypeDesc, name_off: u32, member_off: u32, sm5: bool)
    ensures
        final(w).base == old(w).base,
        final(w).out@ == old(w).out@ + type_record(td.model(), name_off, member_off, sm5),
{
    proof {
        lemma_type_model(*td);
    }
    w.word((td.class as u32) | ((td.var_type as u32) << 16));
    w.word((td.rows as u32) | ((td.columns as u32) << 16));
    w.word((td.elements as u32) | ((td.members.len() as u32) << 16));
    w.word(member_off);
    if sm5 {
        match &td.sm5_extra {
            Some(e) => {
                w.word(e[0]);
                w.word(e[1]);
                w.word(e[2]);
                w.word(e[3]);
            },
            None => {
                w.word(0);
                w.word(0);
                w.word(0);
                w.word(0);
            },
        }
        w.word(name_off);
    }
    assert(w.out@ =~= old(w).out@ + type_record(td.model(), name_off, member_off, sm5));
}

/// Write the names and types of the members of a struct.
fn place_members<'a>(
    w: &mut Sink,
    st: &mut Tables<'a>,
    members: &'a Vec<MemberDesc>,
    sm5: bool,
) -> (r: Vec<u32>)
    requires
        old(w).base < FAR,
    ensures
        ({
            let ms = member_models(members@);
            let p = placed_members(old(w).pos(), old(st).model(), ms, sm5, ms.len() as int);
            &&& r@ == p.offs
            &&& final(w).base == old(w).base
            &&& final(w).out@ == old(w).out@ + p.bytes
            &&& final(st).model() == p.st
        }),
    decreases members, 0int,
{
    let ghost pos = w.pos();
    let ghost st0 = st.model();
    let ghost ms = member_models(members@);
    let ghost out0 = w.out@;
    let mut offs: Vec<u32> = Vec::new();
    let mut k: usize = 0;
    assert(w.out@ =~= out0 + Seq::<u8>::empty());
    assert(offs@ =~= Seq::empty());
    while k < members.len()
        invariant
            k <= members.len(),
            ms == member_models(members@),
            w.base == old(w).base,
            w.base < FAR,
            pos == w.base + out0.len(),
            ({
                let p = placed_members(pos, st0, ms, sm5, k as int);
                offs@ == p.offs && w.out@ == out0 + p.bytes && st.model() == p.st
            }),
        decreases members.len() - k,
    {
        let ghost p = placed_members(pos, st0, ms, sm5, k as int);
        let m = &members[k];
        assert(ms[k as int] == m.model());
        assert(decreases_to!(members => members@[k as int]));
        let ghost i = interned(w.pos(), st.model().pool, m.name@);
        intern(w, &mut st.pool, m.name.as_str());
        let ghost st1 = st.model();
        assert(st1 == (Written { pool: i.pool, types: p.st.types }));
        let ghost pos1 = w.pos();
        assert(pos1 == pos + p.bytes.len() + i.bytes.len());
        let off: u32 = place_type(w, st, &m.member_type, sm5);
        offs.push(off);
        k += 1;
        proof {
            let t = placed_type(pos1, st1, m.member_type.model(), sm5);
            reveal(placed_type);
            assert(ms[k - 1].member_type == m.member_type.model());
            lemma_cat4(out0, p.bytes, i.bytes, t.bytes);
            lemma_cat3(p.bytes, i.bytes, t.bytes);
        }
    }
    offs
}

/// Write the member records of a struct.
fn write_member_records<'a>(
    w: &mut Sink,
    st: &Tables<'a>,
    members: &'a Vec<MemberDesc>,
    offs: &Vec<u32>,
)
    requires
        offs@.len() == members@.len(),
    ensures
        final(w).base == old(w).base,
        final(w).out@ == old(w).out@ + member_records(
            member_models(members@),
            st.model().pool,
            offs@,
            members@.len() as int,
        ),
{
    let ghost ms = member_models(members@);
    let mut k: usize = 0;
    assert(w.out@ =~= old(w).out@ + Seq::<u8>::empty());
    while k < members.len()
        invariant
            k <= members.len(),
            offs@.len() == members@.len(),
            ms == member_models(members@),
            w.base == old(w).base,
            w.out@ == old(w).out@ + member_records(ms, st.model().pool, offs@, k as int),
        decreases members.len() - k,
    {
        let m = &members[k];
        assert(ms[k as int] == m.model());
        let name: u32 = match find_in_pool(&st.pool, m.name.as_str()) {
            Some(v) => v,
            None => 0,
        };
        w.word(name);
        w.word(offs[k]);
        w.word(m.offset);
        k += 1;
        assert(w.out@ =~= old(w).out@ + member_records(ms, st.model().pool, offs@, k as int));
    }
}

/// As many members are placed as there are.
proof fn lemma_placed_members_len(
    pos: nat,
    st: Written,
    ms: Seq<MemberModel>,
    sm5: bool,
    n: int,
)
    requires
        0 <= n <= ms.len(),
    ensures
        placed_members(pos, st, ms, sm5, n).offs.len() == n,
    decreases n,
{
    if n > 0 {
        lemma_placed_members_len(pos, st, ms, sm5, n - 1);
    }
}

/// Write the name and the members of a type; give the positions of its name and
/// of its member records.
fn place_type_parts<'a>(w: &mut Sink, st: &mut Tables<'a>, td: &'a TypeDesc, sm5: bool) -> (r: (
    u32,
    u32,
))
    requires
        old(w).base < FAR,
    ensures
        ({
            let p = type_parts(old(w).pos(), old(st).model(), td.model(), sm5);
            &&& r.0 == p.name_off
            &&& r.1 == p.member_off
            &&& final(w).base == old(w).base
            &&& final(w).out@ == old(w).out@ + p.bytes
            &&& final(st).model() == p.st
        }),
    decreases td, 0int,
{
    proof {
        lemma_type_model(*td);
    }
    let ghost out0 = w.out@;
    let ghost pos = w.pos();
    let ghost st0 = st.model();
    let name_off: u32 = if td.name.as_str().is_empty() {
        0
    } else {
        intern(w, &mut st.pool, td.name.as_str())
    };
    let ghost i = if td.model().name.len() == 0 {
        Interned { bytes: Seq::empty(), pool: st0.pool, off: 0 }
    } else {
        interned(pos, st0.pool, td.model().name)
    };
    assert(w.out@ =~= out0 + i.bytes);
    if td.members.len() == 0 {
        w.pad4();
        proof {
            lemma_cat3(out0, i.bytes, padding(pos + i.bytes.len()));
        }
        return (name_off, 0);
    }
    let offs = place_members(w, st, &td.members, sm5);
    let ghost m = placed_members(
        pos + i.bytes.len(),
        Written { pool: i.pool, types: st0.types },
        td.model().members,
        sm5,
        td.model().members.len() as int,
    );
    proof {
        lemma_placed_members_len(
            pos + i.bytes.len(),
            Written { pool: i.pool, types: st0.types },
            td.model().members,
            sm5,
            td.model().members.len() as int,
        );
    }
    let ghost before = i.bytes + m.bytes;
    proof {
        lemma_cat3(out0, i.bytes, m.bytes);
    }
    assert(w.out@ == out0 + before);
    w.pad4();
    let ghost gap = padding(pos + before.len());
    proof {
        lemma_cat3(out0, before, gap);
    }
    assert(w.out@ == out0 + (before + gap));
    let member_off: u32 = w.here();
    write_member_records(w, st, &td.members, &offs);
    let ghost records = member_records(
        td.model().members,
        m.st.pool,
        m.offs,
        td.model().members.len() as int,
    );
    let ghost all = before + gap + records;
    proof {
        lemma_cat3(out0, before + gap, records);
    }
    assert(w.out@ == out0 + all);
    w.pad4();
    proof {
        lemma_cat3(out0, all, padding(pos + all.len()));
    }
    (name_off, member_off)
}

/// Write a type, unless it is no array and has been written before, and give its
/// position.
fn place_type<'a>(w: &mut Sink, st: &mut Tables<'a>, td: &'a TypeDesc, sm5: bool) -> (r: u32)
    requires
        old(w).base < FAR,
    ensures
        ({
            let p = placed_type(old(w).pos(), old(st).model(), td.model(), sm5);
            &&& r == p.off
            &&& final(w).base == old(w).base
            &&& final(w).out@ == old(w).out@ + p.bytes
            &&& final(st).model() == p.st
        }),
    decreases td, 1int,
{
    reveal(placed_type);
    if td.elements == 0 {
        match find_type(&st.types, td) {
            Some(off) => {
                assert(w.out@ =~= w.out@ + Seq::<u8>::empty());
                return off;
            },
            None => {},
        }
    }
    let ghost out0 = w.out@;
    let ghost p = type_parts(w.pos(), st.model(), td.model(), sm5);
    let (name_off, member_off) = place_type_parts(w, st, td, sm5);
    let off: u32 = w.here();
    write_type_record(w, td, name_off, member_off, sm5);
    let ghost before = st.types@;
    st.types.push((td, off));
    proof {
        assert(types_table(st.types@) =~= types_table(before).push((td.model(), off)));
        lemma_cat3(out0, p.bytes, type_record(td.model(), name_off, member_off, sm5));
    }
    off
}

/// Write what the variables of a buffer refer to; give the position of each
/// name, type and default value.
fn place_variables<'a>(
    w: &mut Sink,
    st: &mut Tables<'a>,
    vars: &'a Vec<CBufferVariable>,
    sm5: bool,
) -> (r: Vec<(u32, u32, u32)>)
    requires
        old(w).base < FAR,
        old(w).out@.len() == 0,
    ensures
        ({
            let vs = variable_models(vars@);
            let p = placed_variables(old(w).base as nat, old(st).model(), vs, sm5, vs.len() as int);
            &&& r@ == p.offs
            &&& r@.len() == vars@.len()
            &&& final(w).out@ == p.bytes
            &&& final(st).model() == p.st
        }),
{
    let ghost pos = w.base as nat;
    let ghost st0 = st.model();
    let ghost vs = variable_models(vars@);
    let mut offs: Vec<(u32, u32, u32)> = Vec::new();
    let mut k: usize = 0;
    assert(w.out@ =~= Seq::empty());
    assert(offs@ =~= Seq::empty());
    while k < vars.len()
        invariant
            k <= vars.len(),
            vs == variable_models(vars@),
            w.base == pos,
            w.base < FAR,
            offs@.len() == k,
            ({
                let p = placed_variables(pos, st0, vs, sm5, k as int);
                offs@ == p.offs && w.out@ == p.bytes && st.model() == p.st
            }),
        decreases vars.len() - k,
    {
        let v = &vars[k];
        assert(vs[k as int] == v.model());
        let ghost p = placed_variables(pos, st0, vs, sm5, k as int);
        let ghost i = interned(pos + p.bytes.len(), p.st.pool, v.name@);
        let noff: u32 = intern(w, &mut st.pool, v.name.as_str());
        assert(st.model() == (Written { pool: i.pool, types: p.st.types }));
        let toff: u32 = place_type(w, st, &v.var_type, sm5);
        let doff: u32 = if v.default_value.len() == 0 { 0 } else { w.here() };
        w.bytes(v.default_value.as_slice());
        offs.push((noff, toff, doff));
        k += 1;
    }
    offs
}

fn write_variable_record(w: &mut Vec<u8>, v: &CBufferVariable, o: (u32, u32, u32), sm5: bool)
    ensures
        final(w)@ == old(w)@ + variable_record(v.model(), o, sm5),
{
    push_u32(w, o.0);
    push_u32(w, v.offset);
    push_u32(w, v.size);
    push_u32(w, v.flags);
    push_u32(w, o.1);
    push_u32(w, o.2);
    if sm5 {
        push_u32(w, or_else(v.texture_start, SLOT_UNUSED));
        push_u32(w, or_else(v.texture_size, 0));
        push_u32(w, or_else(v.sampler_start, SLOT_UNUSED));
        push_u32(w, or_else(v.sampler_size, 0));
    }
    assert(w@ =~= old(w)@ + variable_record(v.model(), o, sm5));
}

fn or_else(v: Option<u32>, missing: u32) -> (r: u32)
    ensures
        r == word_or(v, missing),
{
    match v {
        Some(x) => x,
        None => missing,
    }
}

fn write_variable_records(
    w: &mut Vec<u8>,
    vars: &Vec<CBufferVariable>,
    offs: &Vec<(u32, u32, u32)>,
    sm5: bool,
)
    requires
        offs@.len() == vars@.len(),
    ensures
        final(w)@ == old(w)@ + variable_records(
            variable_models(vars@),
            offs@,
            sm5,
            vars@.len() as int,
        ),
{
    let ghost vs = variable_models(vars@);
    let mut k: usize = 0;
    assert(w@ =~= old(w)@ + Seq::<u8>::empty());
    while k < vars.len()
        invariant
            k <= vars.len(),
            offs@.len() == vars@.len(),
            vs == variable_models(vars@),
            w@ == old(w)@ + variable_records(vs, offs@, sm5, k as int),
        decreases vars.len() - k,
    {
        assert(vs[k as int] == vars@[k as int].model());
        write_variable_record(w, &vars[k], offs[k], sm5);
        proof {
            lemma_cat3(
                old(w)@,
                variable_records(vs, offs@, sm5, k as int),
                variable_record(vs[k as int], offs@[k as int], sm5),
            );
        }
        k += 1;
    }
}

/// Write the variables of the buffers from position `base` on; give the bytes
/// and the position of each buffer's records.
fn place_buffers<'a>(
    base: u128,
    st: &mut Tables<'a>,
    cbs: &'a Vec<CBufferDef>,
    sm5: bool,
) -> (r: (Vec<u8>, Vec<u32>))
    requires
        base < 0x1_0000_0000_0000_0000_0000,
        old(st).model() == (Written { pool: Seq::empty(), types: Seq::empty() }),
    ensures
        ({
            let cs = cbuffer_models(cbs@);
            let p = placed_buffers(base as nat, cs, sm5, cs.len() as int);
            &&& r.0@ == p.bytes
            &&& r.1@ == p.offs
            &&& r.1@.len() == cbs@.len()
            &&& final(st).model() == p.st
        }),
{
    let ghost cs = cbuffer_models(cbs@);
    let mut w = Sink::new(base);
    let mut offs: Vec<u32> = Vec::new();
    let mut k: usize = 0;
    assert(offs@ =~= Seq::empty());
    while k < cbs.len()
        invariant
            k <= cbs.len(),
            cs == cbuffer_models(cbs@),
            w.base == base,
            base < 0x1_0000_0000_0000_0000_0000,
            offs@.len() == k,
            ({
                let p = placed_buffers(base as nat, cs, sm5, k as int);
                offs@ == p.offs && w.out@ == p.bytes && st.model() == p.st
            }),
        decreases cbs.len() - k,
    {
        let ghost p = placed_buffers(base as nat, cs, sm5, k as int);
        let cb = &cbs[k];
        let ghost vs = cb.model().variables;
        assert(cs[k as int] == cb.model());
        w.pad4();
        let at: u32 = w.here();
        let n: u128 = cb.variables.len() as u128;
        let records: u128 = if sm5 { n * 40 } else { n * 24 };
        assert(records == vs.len() * record_size(sm5));
        let mut body = Sink::new(w.base + w.out.len() as u128 + records);
        let ghost gap = padding((base + p.bytes.len()) as nat);
        assert(body.base == base + p.bytes.len() + gap.len() + vs.len() * record_size(sm5));
        let var_offs = place_variables(&mut body, st, &cb.variables, sm5);
        write_variable_records(&mut w.out, &cb.variables, &var_offs, sm5);
        w.bytes(body.out.as_slice());
        offs.push(at);
        k += 1;
    }
    (w.out, offs)
}

fn write_buffer_records(
    w: &mut Vec<u8>,
    cbs: &Vec<CBufferDef>,
    name_offs: &Vec<u32>,
    var_offs: &Vec<u32>,
)
    requires
        name_offs@.len() == cbs@.len(),
        var_offs@.len() == cbs@.len(),
    ensures
        final(w)@ == old(w)@ + buffer_records(
            cbuffer_models(cbs@),
            name_offs@,
            var_offs@,
            cbs@.len() as int,
        ),
        final(w)@.len() == old(w)@.len() + 24 * cbs@.len(),
{
    let ghost cs = cbuffer_models(cbs@);
    let mut k: usize = 0;
    assert(w@ =~= old(w)@ + Seq::<u8>::empty());
    while k < cbs.len()
        invariant
            k <= cbs.len(),
            name_offs@.len() == cbs@.len(),
            var_offs@.len() == cbs@.len(),
            cs == cbuffer_models(cbs@),
            w@ == old(w)@ + buffer_records(cs, name_offs@, var_offs@, k as int),
            w@.len() == old(w)@.len() + 24 * k,
        decreases cbs.len() - k,
    {
        let ghost before = w@;
        let c = &cbs[k];
        assert(cs[k as int] == c.model());
        push_u32(w, name_offs[k]);
        push_u32(w, c.variables.len() as u32);
        push_u32(w, var_offs[k]);
        push_u32(w, c.size);
        push_u32(w, c.flags);
        push_u32(w, c.cb_type);
        proof {
            let r = word_bytes(name_offs@[k as int]) + word_bytes(
                cs[k as int].variables.len() as u32,
            ) + word_bytes(var_offs@[k as int]) + word_bytes(c.size) + word_bytes(c.flags)
                + word_bytes(c.cb_type);
            assert(w@ =~= before + r);
            lemma_cat3(old(w)@, buffer_records(cs, name_offs@, var_offs@, k as int), r);
            lemma_word_bytes(name_offs@[k as int]);
            lemma_word_bytes(c.variables.len() as u32);
            lemma_word_bytes(var_offs@[k as int]);
            lemma_word_bytes(c.size);
            lemma_word_bytes(c.flags);
            lemma_word_bytes(c.cb_type);
        }
        k += 1;
    }
}

fn write_binding_records(w: &mut Vec<u8>, bs: &Vec<ResourceBinding>, offs: &Vec<u32>)
    requires
        offs@.len() == bs@.len(),
    ensures
        final(w)@ == old(w)@ + binding_records(binding_models(bs@), offs@, bs@.len() as int),
{
    let ghost ms = binding_models(bs@);
    let mut k: usize = 0;
    assert(w@ =~= old(w)@ + Seq::<u8>::empty());
    while k < bs.len()
        invariant
            k <= bs.len(),
            offs@.len() == bs@.len(),
            ms == binding_models(bs@),
            w@ == old(w)@ + binding_records(ms, offs@, k as int),
        decreases bs.len() - k,
    {
        let ghost before = w@;
        let b = &bs[k];
        assert(ms[k as int] == b.model());
        push_u32(w, offs[k]);
        push_u32(w, b.input_type);
        push_u32(w, b.return_type);
        push_u32(w, b.dimension);
        push_u32(w, b.num_samples);
        push_u32(w, b.bind_point);
        push_u32(w, b.bind_count);
        push_u32(w, b.flags);
        proof {
            let r = word_bytes(offs@[k as int]) + word_bytes(b.input_type) + word_bytes(
                b.return_type,
            ) + word_bytes(b.dimension) + word_bytes(b.num_samples) + word_bytes(b.bind_point)
                + word_bytes(b.bind_count) + word_bytes(b.flags);
            assert(w@ =~= before + r);
            lemma_cat3(old(w)@, binding_records(ms, offs@, k as int), r);
        }
        k += 1;
    }
}

fn write_rd11(w: &mut Vec<u8>, r: &Option<[u32; 8]>)
    ensures
        final(w)@ == old(w)@ + rd11_bytes(*r),
{
    match r {
        Some(e) => {
            push_u32(w, e[0]);
            push_u32(w, e[1]);
            push_u32(w, e[2]);
            push_u32(w, e[3]);
            push_u32(w, e[4]);
            push_u32(w, e[5]);
            push_u32(w, e[6]);
            push_u32(w, e[7]);
            assert(w@ =~= old(w)@ + rd11_bytes(*r));
        },
        None => {
            assert(w@ =~= old(w)@ + rd11_bytes(*r));
        },
    }
}

/// The further header takes 32 bytes.
proof fn lemma_rd11_len(r: Option<[u32; 8]>)
    ensures
        rd11_bytes(r).len() == if r is Some {
            32int
        } else {
            0
        },
{
    if let Some(e) = r {
        lemma_word_bytes(e[0]);
        lemma_word_bytes(e[1]);
        lemma_word_bytes(e[2]);
        lemma_word_bytes(e[3]);
        lemma_word_bytes(e[4]);
        lemma_word_bytes(e[5]);
        lemma_word_bytes(e[6]);
        lemma_word_bytes(e[7]);
    }
}

/// As many positions come out as names went in.
pub proof fn lemma_interned_names_len(pos: nat, pool: NameTable, names: Seq<Seq<char>>, n: int)
    requires
        0 <= n,
    ensures
        interned_names(pos, pool, names, n).offs.len() == n,
    decreases n,
{
    if n > 0 {
        lemma_interned_names_len(pos, pool, names, n - 1);
    }
}

/// Fill up to the next multiple of four.
pub(crate) fn pad_to4(w: &mut Vec<u8>, before: u128)
    requires
        before < 100,
    ensures
        final(w)@ == old(w)@ + padding((before + old(w)@.len()) as nat),
{
    let mut s = Sink::new(before + w.len() as u128);
    s.pad4();
    push_slice(w, s.out.as_slice());
    assert(w@ =~= old(w)@ + padding((before + old(w)@.len()) as nat));
}

fn binding_name_list<'a>(bs: &'a Vec<ResourceBinding>) -> (r: Vec<&'a str>)
    ensures
        Seq::new(r@.len(), |i: int| r@[i]@) == binding_names(binding_models(bs@)),
        r@.len() == bs@.len(),
{
    let mut r: Vec<&'a str> = Vec::new();
    let mut i: usize = 0;
    while i < bs.len()
        invariant
            i <= bs.len(),
            r@.len() == i,
            forall|k: int| 0 <= k < i ==> (#[trigger] r@[k])@ == bs@[k].name@,
        decreases bs.len() - i,
    {
        r.push(bs[i].name.as_str());
        i += 1;
    }
    assert(Seq::new(r@.len(), |i: int| r@[i]@) =~= binding_names(binding_models(bs@)));
    r
}

fn buffer_name_list<'a>(cbs: &'a Vec<CBufferDef>) -> (r: Vec<&'a str>)
    ensures
        Seq::new(r@.len(), |i: int| r@[i]@) == buffer_names(cbuffer_models(cbs@)),
        r@.len() == cbs@.len(),
{
    let mut r: Vec<&'a str> = Vec::new();
    let mut i: usize = 0;
    while i < cbs.len()
        invariant
            i <= cbs.len(),
            r@.len() == i,
            forall|k: int| 0 <= k < i ==> (#[trigger] r@[k])@ == cbs@[k].name@,
        decreases cbs.len() - i,
    {
        r.push(cbs[i].name.as_str());
        i += 1;
    }
    assert(Seq::new(r@.len(), |i: int| r@[i]@) =~= buffer_names(cbuffer_models(cbs@)));
    r
}

impl ResourceDef {
    /// The code of the chunk.
    pub fn fourcc(&self) -> (r: [u8; 4])
        ensures
            r@ == seq![0x52u8, 0x44u8, 0x45u8, 0x46u8],
    {
        let r = [0x52u8, 0x44u8, 0x45u8, 0x46u8];
        assert(r@ =~= seq![0x52u8, 0x44u8, 0x45u8, 0x46u8]);
        r
    }

    /// All that stands between the header and the buffer records.
    fn write_front<'a>(&'a self, pool: &mut Vec<(&'a str, u32)>) -> (r: Vec<u8>)
        requires
            old(pool)@.len() == 0,
        ensures
            r@ == front_bytes(self.model()),
            pool_table(final(pool)@) == binding_section(self.model()).pool,
    {
        let ghost rd = self.model();
        let mut out: Vec<u8> = Vec::new();
        write_rd11(&mut out, &self.rd11_extra);
        proof {
            lemma_rd11_len(self.rd11_extra);
        }
        assert(out@ =~= rd11_bytes(rd.rd11_extra));
        let names = binding_name_list(&self.bindings);
        let base: u128 = 28 + out.len() as u128 + 32 * self.bindings.len() as u128;
        let mut tail = Sink::new(base);
        assert(pool_table(pool@) =~= Seq::empty());
        let offs = intern_names(&mut tail, pool, &names);
        let ghost n = binding_section(rd);
        assert(rd.bindings.len() == self.bindings@.len());
        assert(offs@ == n.offs && tail.out@ == n.bytes);
        proof {
            lemma_interned_names_len(
                base as nat,
                Seq::empty(),
                binding_names(rd.bindings),
                rd.bindings.len() as int,
            );
        }
        write_binding_records(&mut out, &self.bindings, &offs);
        push_slice(&mut out, tail.out.as_slice());
        if self.constant_buffers.len() > 0 {
            pad_to4(&mut out, 28);
        }
        out
    }

    /// All that stands between the header and the creator's name, and the
    /// position of the buffer records.
    fn write_middle<'a>(&'a self, st: &mut Tables<'a>) -> (r: (Vec<u8>, u32))
        requires
            old(st).pool@.len() == 0,
            old(st).types@.len() == 0,
        ensures
            r.0@ == middle_bytes(self.model()),
            r.1 == (28 + front_bytes(self.model()).len()) as u32,
            final(st).model() == variable_section(self.model()).st,
    {
        let ghost rd = self.model();
        let mut pool: Vec<(&'a str, u32)> = Vec::new();
        let mut out = self.write_front(&mut pool);
        let front: u128 = 28 + out.len() as u128;
        let at: u32 = front as u32;
        let names = buffer_name_list(&self.constant_buffers);
        let base: u128 = front + 24 * self.constant_buffers.len() as u128;
        let mut tail = Sink::new(base);
        let name_offs = intern_names(&mut tail, &mut pool, &names);
        let ghost n = buffer_section(rd);
        assert(rd.constant_buffers.len() == self.constant_buffers@.len());
        assert(name_offs@ == n.offs && tail.out@ == n.bytes);
        proof {
            lemma_interned_names_len(
                base as nat,
                binding_section(rd).pool,
                buffer_names(rd.constant_buffers),
                rd.constant_buffers.len() as int,
            );
            assert(pool_table(st.pool@) =~= Seq::empty());
            assert(types_table(st.types@) =~= Seq::empty());
        }
        let (body, var_offs) = place_buffers(
            base + tail.out.len() as u128,
            st,
            &self.constant_buffers,
            is_sm5(self.target_version),
        );
        write_buffer_records(&mut out, &self.constant_buffers, &name_offs, &var_offs);
        push_slice(&mut out, tail.out.as_slice());
        push_slice(&mut out, body.as_slice());
        (out, at)
    }

    /// The bytes of the chunk.
    pub fn write_payload(&self) -> (r: Vec<u8>)
        ensures
            r@ == rdef_payload(self.model()),
    {
        let ghost rd = self.model();
        let mut st = Tables { pool: Vec::new(), types: Vec::new() };
        let (middle, at) = self.write_middle(&mut st);
        let mut tail = Sink::new(28 + middle.len() as u128);
        let creator: u32 = intern(&mut tail, &mut st.pool, self.creator.as_str());
        assert(tail.out@ =~= creator_section(rd).bytes);
        let rd11: u32 = if self.rd11_extra.is_some() { 60 } else { 28 };
        let mut out: Vec<u8> = Vec::new();
        push_u32(&mut out, self.constant_buffers.len() as u32);
        push_u32(&mut out, if self.constant_buffers.len() == 0 { 0 } else { at });
        push_u32(&mut out, self.bindings.len() as u32);
        push_u32(&mut out, rd11);
        push_u32(&mut out, self.target_version);
        push_u32(&mut out, self.compile_flags);
        push_u32(&mut out, creator);
        proof {
            lemma_rd11_len(self.rd11_extra);
            assert(out@ =~= rdef_header(rd));
        }
        push_slice(&mut out, middle.as_slice());
        push_slice(&mut out, tail.out.as_slice());
        pad_to4(&mut out, 0);
        out
    }
}

} // verus!
